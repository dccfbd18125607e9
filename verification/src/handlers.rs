//! The route behaviors, as pure mappings from parsed inputs and the
//! random source to body texts: the plain index body, the one- and
//! two-bound draws, and the list shuffle.

use vstd::prelude::*;

use crate::range::{effective_from, effective_to, resolve, RangeError};
use crate::response::{numeric_body, render_number};
use crate::rng::RandomSource;
use crate::text::{join_seq, join_lines, split_seq, split_str, views_of};

verus! {

/// Draws one value between the given bounds, a missing lower bound
/// defaulting to 0 and a missing upper bound to 100. Callers rule
/// inverted bounds out beforehand, so the draw itself cannot fail.
pub fn get_rand(source: &mut RandomSource, from: Option<u64>, to: Option<u64>) -> (n: u64)
    requires
        effective_from(from) <= effective_to(to),
    ensures
        effective_from(from) <= n <= effective_to(to),
{
    match resolve(from, to) {
        Ok(rg) => source.draw(rg),
        Err(_) => {
            proof {
                assert(false);
            }
            0
        },
    }
}

/// The plain-text index body: a random number between 0 and 100, in
/// decimal with a trailing newline.
pub fn index_plain(source: &mut RandomSource) -> (r: String)
    ensures
        exists|n: u64| n <= 100 && r@ == numeric_body(n as int),
{
    let num = get_rand(source, Some(0), Some(100));
    let r = render_number(num);
    proof {
        assert(num <= 100 && r@ == numeric_body(num as int));
    }
    r
}

/// The body for an upper-bounded draw: a random number between 0 and
/// `to` inclusive. Any `to` up to the full 64-bit maximum is accepted.
pub fn upper_limit(source: &mut RandomSource, to: u64) -> (r: String)
    ensures
        exists|n: u64| n <= to && r@ == numeric_body(n as int),
{
    let num = get_rand(source, Some(0), Some(to));
    let r = render_number(num);
    proof {
        assert(num <= to && r@ == numeric_body(num as int));
    }
    r
}

/// The body for a two-bound draw: succeeds with a random number between
/// `from` and `to` inclusive exactly when the bounds are in order, and
/// fails with the inverted-order error otherwise.
pub fn both_limits(source: &mut RandomSource, from: u64, to: u64) -> (r: Result<
    String,
    RangeError,
>)
    ensures
        r is Ok <==> from <= to,
        r matches Ok(b) ==> exists|n: u64| from <= n <= to && b@ == numeric_body(n as int),
        r matches Err(e) ==> e == RangeError::InvertedOrder(from, to),
{
    match resolve(Some(from), Some(to)) {
        Ok(rg) => {
            let num = source.draw(rg);
            let b = render_number(num);
            proof {
                assert(from <= num <= to && b@ == numeric_body(num as int));
            }
            Ok(b)
        },
        Err(e) => Err(e),
    }
}

/// The shuffle body: the comma-separated items of `list`, empty items
/// preserved, in a random order, joined by newlines with none at the
/// ends. No item is lost or duplicated: the items of the body are a
/// permutation of the items of `list`.
pub fn shuffle(source: &mut RandomSource, list: &str) -> (r: String)
    ensures
        exists|p: Seq<Seq<char>>|
            p.to_multiset() == split_seq(list@, ',').to_multiset() && r@ == join_seq(p, '\n'),
{
    let mut items = split_str(list, ',');
    source.shuffle(&mut items);
    let r = join_lines(&items);
    proof {
        let p = views_of(items@);
        assert(p.to_multiset() == split_seq(list@, ',').to_multiset() && r@ == join_seq(p, '\n'));
    }
    r
}

} // verus!
