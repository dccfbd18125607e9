//! Text utilities the service's bodies are built from: decimal rendering
//! and parsing of unsigned 64-bit integers, and plain string helpers
//! (prefix test, equality, splitting and joining on a separator).

use vstd::prelude::*;

verus! {

// ---------------------------------------------------------------------------
// Decimal digits
// ---------------------------------------------------------------------------

/// The character for one decimal digit.
pub open spec fn digit_char(d: int) -> char
    recommends
        0 <= d < 10,
{
    if d == 0 {
        '0'
    } else if d == 1 {
        '1'
    } else if d == 2 {
        '2'
    } else if d == 3 {
        '3'
    } else if d == 4 {
        '4'
    } else if d == 5 {
        '5'
    } else if d == 6 {
        '6'
    } else if d == 7 {
        '7'
    } else if d == 8 {
        '8'
    } else {
        '9'
    }
}

/// Whether a character is a decimal digit.
pub open spec fn is_digit(c: char) -> bool {
    48 <= c as u32 && c as u32 <= 57
}

/// The numeric value of a decimal digit character.
pub open spec fn digit_val(c: char) -> int
    recommends
        is_digit(c),
{
    c as u32 - 48
}

/// Whether every character of the sequence is a decimal digit.
pub open spec fn all_digits(s: Seq<char>) -> bool {
    forall|i: int| 0 <= i < s.len() ==> is_digit(#[trigger] s[i])
}

/// The canonical decimal representation of a non-negative integer:
/// most significant digit first, no leading zeros (except for 0 itself).
pub open spec fn dec_rep(n: int) -> Seq<char>
    recommends
        n >= 0,
    decreases n,
{
    if n < 10 {
        seq![digit_char(n)]
    } else {
        dec_rep(n / 10).push(digit_char(n % 10))
    }
}

/// The integer a digit sequence denotes, read most significant digit first.
pub open spec fn dec_value(s: Seq<char>) -> int
    recommends
        all_digits(s),
    decreases s.len(),
{
    if s.len() == 0 {
        0
    } else {
        dec_value(s.drop_last()) * 10 + digit_val(s.last())
    }
}

/// A digit string denotes a non-negative value.
proof fn lemma_dec_value_nonneg(s: Seq<char>)
    requires
        all_digits(s),
    ensures
        dec_value(s) >= 0,
    decreases s.len(),
{
    if s.len() > 0 {
        assert(all_digits(s.drop_last()));
        lemma_dec_value_nonneg(s.drop_last());
    }
}

/// Reading more digits never decreases the denoted value: the value of a
/// prefix of a digit string is at most the value of a longer prefix.
proof fn lemma_dec_value_prefix_le(s: Seq<char>, i: int, j: int)
    requires
        all_digits(s),
        0 <= i <= j <= s.len(),
    ensures
        dec_value(s.subrange(0, i)) <= dec_value(s.subrange(0, j)),
    decreases j - i,
{
    if i < j {
        lemma_dec_value_prefix_le(s, i, j - 1);
        let p = s.subrange(0, j);
        assert(p.drop_last() =~= s.subrange(0, j - 1));
        assert(all_digits(s.subrange(0, j - 1)));
        lemma_dec_value_nonneg(s.subrange(0, j - 1));
    }
}

/// Rendering then reading a decimal is the identity: `dec_rep(n)` is a
/// non-empty digit string whose value is `n` again.
pub proof fn lemma_dec_rep_value(n: int)
    requires
        n >= 0,
    ensures
        dec_rep(n).len() >= 1,
        all_digits(dec_rep(n)),
        dec_value(dec_rep(n)) == n,
    decreases n,
{
    if n < 10 {
        let s = dec_rep(n);
        assert(s.drop_last() =~= Seq::<char>::empty());
        assert(dec_value(Seq::<char>::empty()) == 0);
        assert(dec_value(s) == dec_value(s.drop_last()) * 10 + digit_val(s.last()));
    } else {
        lemma_dec_rep_value(n / 10);
        let s = dec_rep(n);
        assert(s.drop_last() =~= dec_rep(n / 10));
        assert(s.last() == digit_char(n % 10));
        assert(dec_value(s) == dec_value(s.drop_last()) * 10 + digit_val(s.last()));
        assert(dec_value(s) == (n / 10) * 10 + n % 10);
        assert forall|i: int| 0 <= i < s.len() implies is_digit(#[trigger] s[i]) by {
            if i < s.len() - 1 {
                assert(s[i] == dec_rep(n / 10)[i]);
            } else {
                assert(s[i] == digit_char(n % 10));
            }
        }
    }
}

// ---------------------------------------------------------------------------
// Decimal rendering
// ---------------------------------------------------------------------------

/// Appends the character of one decimal digit to a string.
fn push_digit(s: &mut String, d: u64)
    requires
        d < 10,
    ensures
        final(s)@ == old(s)@ + seq![digit_char(d as int)],
{
    if d == 0 {
        proof {
            reveal_strlit("0");
            assert("0"@ =~= seq![digit_char(0)]);
        }
        s.append("0");
    } else if d == 1 {
        proof {
            reveal_strlit("1");
            assert("1"@ =~= seq![digit_char(1)]);
        }
        s.append("1");
    } else if d == 2 {
        proof {
            reveal_strlit("2");
            assert("2"@ =~= seq![digit_char(2)]);
        }
        s.append("2");
    } else if d == 3 {
        proof {
            reveal_strlit("3");
            assert("3"@ =~= seq![digit_char(3)]);
        }
        s.append("3");
    } else if d == 4 {
        proof {
            reveal_strlit("4");
            assert("4"@ =~= seq![digit_char(4)]);
        }
        s.append("4");
    } else if d == 5 {
        proof {
            reveal_strlit("5");
            assert("5"@ =~= seq![digit_char(5)]);
        }
        s.append("5");
    } else if d == 6 {
        proof {
            reveal_strlit("6");
            assert("6"@ =~= seq![digit_char(6)]);
        }
        s.append("6");
    } else if d == 7 {
        proof {
            reveal_strlit("7");
            assert("7"@ =~= seq![digit_char(7)]);
        }
        s.append("7");
    } else if d == 8 {
        proof {
            reveal_strlit("8");
            assert("8"@ =~= seq![digit_char(8)]);
        }
        s.append("8");
    } else {
        proof {
            reveal_strlit("9");
            assert("9"@ =~= seq![digit_char(9)]);
        }
        s.append("9");
    }
}

/// Appends the decimal representation of `n` to a string.
fn write_dec(s: &mut String, n: u64)
    ensures
        final(s)@ == old(s)@ + dec_rep(n as int),
    decreases n,
{
    if n < 10 {
        push_digit(s, n);
    } else {
        write_dec(s, n / 10);
        push_digit(s, n % 10);
        proof {
            assert(old(s)@ + dec_rep(n as int / 10) + seq![digit_char(n as int % 10)] =~= old(
                s,
            )@ + dec_rep(n as int));
        }
    }
}

/// Renders `n` in decimal: a non-empty digit string, most significant
/// digit first, that reads back as `n`.
pub fn u64_to_string(n: u64) -> (s: String)
    ensures
        s@ == dec_rep(n as int),
        s@.len() >= 1,
        all_digits(s@),
        dec_value(s@) == n,
{
    let mut s = String::new();
    write_dec(&mut s, n);
    proof {
        assert(s@ =~= dec_rep(n as int));
        lemma_dec_rep_value(n as int);
    }
    s
}

// ---------------------------------------------------------------------------
// Decimal parsing
// ---------------------------------------------------------------------------

/// Parses a string as a non-negative decimal integer. Succeeds exactly on
/// non-empty all-digit strings whose value fits in 64 bits; leading zeros
/// are accepted.
pub fn parse_u64(s: &str) -> (r: Option<u64>)
    ensures
        r is Some <==> s@.len() > 0 && all_digits(s@) && dec_value(s@) <= u64::MAX,
        r matches Some(v) ==> v == dec_value(s@),
{
    let len = s.unicode_len();
    if len == 0 {
        return None;
    }
    let mut acc: u64 = 0;
    let mut i: usize = 0;
    while i < len
        invariant
            0 <= i <= len,
            len == s@.len(),
            all_digits(s@.subrange(0, i as int)),
            acc == dec_value(s@.subrange(0, i as int)),
        decreases len - i,
    {
        let c = s.get_char(i);
        let u = c as u32;
        if u < 48 || u > 57 {
            proof {
                assert(!is_digit(s@[i as int]));
            }
            return None;
        }
        let d = (u - 48) as u64;
        proof {
            let p = s@.subrange(0, i as int + 1);
            assert(p.drop_last() =~= s@.subrange(0, i as int));
            assert(p.last() == s@[i as int]);
        }
        if acc > u64::MAX / 10 || (acc == u64::MAX / 10 && d > u64::MAX % 10) {
            proof {
                if all_digits(s@) {
                    lemma_dec_value_prefix_le(s@, i as int + 1, s@.len() as int);
                    assert(s@.subrange(0, s@.len() as int) =~= s@);
                }
            }
            return None;
        }
        acc = acc * 10 + d;
        i += 1;
    }
    proof {
        assert(s@.subrange(0, len as int) =~= s@);
    }
    Some(acc)
}

// ---------------------------------------------------------------------------
// Plain string helpers
// ---------------------------------------------------------------------------

/// Whether `prefix` starts the string `s`.
pub fn str_starts_with(s: &str, prefix: &str) -> (r: bool)
    ensures
        r == prefix@.is_prefix_of(s@),
{
    let plen = prefix.unicode_len();
    let slen = s.unicode_len();
    if plen > slen {
        return false;
    }
    let mut i: usize = 0;
    while i < plen
        invariant
            0 <= i <= plen <= slen,
            plen == prefix@.len(),
            slen == s@.len(),
            forall|k: int| 0 <= k < i ==> prefix@[k] == s@[k],
        decreases plen - i,
    {
        if s.get_char(i) != prefix.get_char(i) {
            proof {
                assert(prefix@[i as int] != s@.subrange(0, plen as int)[i as int]);
            }
            return false;
        }
        i += 1;
    }
    proof {
        assert(prefix@ =~= s@.subrange(0, plen as int));
    }
    true
}

/// Whether two strings hold the same characters.
pub fn str_eq(a: &str, b: &str) -> (r: bool)
    ensures
        r == (a@ == b@),
{
    let alen = a.unicode_len();
    let blen = b.unicode_len();
    if alen != blen {
        return false;
    }
    let mut i: usize = 0;
    while i < alen
        invariant
            0 <= i <= alen,
            alen == a@.len(),
            alen == b@.len(),
            forall|k: int| 0 <= k < i ==> a@[k] == b@[k],
        decreases alen - i,
    {
        if a.get_char(i) != b.get_char(i) {
            proof {
                assert(a@[i as int] != b@[i as int]);
            }
            return false;
        }
        i += 1;
    }
    proof {
        assert(a@ =~= b@);
    }
    true
}

// ---------------------------------------------------------------------------
// Splitting and joining
// ---------------------------------------------------------------------------

/// The views of a sequence of owned strings.
pub open spec fn views_of(items: Seq<String>) -> Seq<Seq<char>> {
    items.map_values(|t: String| t@)
}

/// Splitting a character sequence on a separator: the pieces between
/// separator occurrences, in order. Empty pieces are preserved, so the
/// result always holds one more piece than there are separators; in
/// particular the empty sequence splits into one empty piece.
pub open spec fn split_seq(s: Seq<char>, sep: char) -> Seq<Seq<char>>
    decreases s.len(),
{
    if s.len() == 0 {
        seq![Seq::<char>::empty()]
    } else if s.last() == sep {
        split_seq(s.drop_last(), sep).push(Seq::<char>::empty())
    } else {
        let rest = split_seq(s.drop_last(), sep);
        rest.update(rest.len() - 1, rest.last().push(s.last()))
    }
}

/// Joining piece sequences with a separator: the pieces in order, one
/// separator between consecutive pieces, none at the ends.
pub open spec fn join_seq(items: Seq<Seq<char>>, sep: char) -> Seq<char>
    decreases items.len(),
{
    if items.len() == 0 {
        Seq::<char>::empty()
    } else if items.len() == 1 {
        items[0]
    } else {
        join_seq(items.drop_last(), sep).push(sep) + items.last()
    }
}

/// Splits a string on a separator character, preserving empty pieces.
pub fn split_str(s: &str, sep: char) -> (items: Vec<String>)
    ensures
        views_of(items@) == split_seq(s@, sep),
        items@.len() >= 1,
{
    let len = s.unicode_len();
    let mut items: Vec<String> = Vec::new();
    let mut start: usize = 0;
    let mut i: usize = 0;
    proof {
        assert(s@.subrange(0, 0) =~= Seq::<char>::empty());
        assert(split_seq(Seq::<char>::empty(), sep) == seq![Seq::<char>::empty()]);
        assert(views_of(items@).push(Seq::<char>::empty()) =~= seq![Seq::<char>::empty()]);
    }
    while i < len
        invariant
            0 <= start <= i <= len,
            len == s@.len(),
            split_seq(s@.subrange(0, i as int), sep) == views_of(items@).push(
                s@.subrange(start as int, i as int),
            ),
        decreases len - i,
    {
        let c = s.get_char(i);
        proof {
            let p = s@.subrange(0, i as int + 1);
            assert(p.drop_last() =~= s@.subrange(0, i as int));
            assert(p.last() == s@[i as int]);
        }
        if c == sep {
            let piece = String::from_str(s.substring_char(start, i));
            proof {
                lemma_views_push(items@, piece);
            }
            items.push(piece);
            start = i + 1;
            proof {
                assert(s@.subrange(start as int, i as int + 1) =~= Seq::<char>::empty());
            }
        } else {
            proof {
                let vs = views_of(items@);
                let cur = s@.subrange(start as int, i as int);
                let rest = split_seq(s@.subrange(0, i as int), sep);
                assert(rest.update(rest.len() - 1, rest.last().push(s@[i as int])) =~= vs.push(
                    cur.push(s@[i as int]),
                ));
                assert(cur.push(s@[i as int]) =~= s@.subrange(start as int, i as int + 1));
                assert(split_seq(s@.subrange(0, i as int + 1), sep) == vs.push(
                    s@.subrange(start as int, i as int + 1),
                ));
            }
        }
        i += 1;
    }
    let piece = String::from_str(s.substring_char(start, len));
    proof {
        lemma_views_push(items@, piece);
        assert(s@.subrange(0, len as int) =~= s@);
    }
    items.push(piece);
    items
}

/// The views of a string sequence extended by one string.
proof fn lemma_views_push(items: Seq<String>, e: String)
    ensures
        views_of(items.push(e)) == views_of(items).push(e@),
{
    assert(views_of(items.push(e)) =~= views_of(items).push(e@));
}

/// Joins the items with a newline between consecutive items.
pub fn join_lines(items: &Vec<String>) -> (r: String)
    ensures
        r@ == join_seq(views_of(items@), '\n'),
{
    let mut r = String::new();
    let mut i: usize = 0;
    proof {
        assert(views_of(items@).subrange(0, 0) =~= Seq::<Seq<char>>::empty());
    }
    while i < items.len()
        invariant
            0 <= i <= items@.len(),
            r@ == join_seq(views_of(items@).subrange(0, i as int), '\n'),
        decreases items@.len() - i,
    {
        let ghost vs = views_of(items@);
        if i > 0 {
            proof {
                reveal_strlit("\n");
            }
            r.append("\n");
            proof {
                assert(join_seq(vs.subrange(0, i as int), '\n') + "\n"@ =~= join_seq(
                    vs.subrange(0, i as int),
                    '\n',
                ).push('\n'));
            }
        }
        r.append(items[i].as_str());
        proof {
            let p = vs.subrange(0, i as int + 1);
            assert(p.drop_last() =~= vs.subrange(0, i as int));
            assert(p.last() == items@[i as int]@);
            if i == 0 {
                assert(r@ =~= vs[0]);
                assert(p[0] == vs[0]);
            }
        }
        i += 1;
    }
    proof {
        assert(views_of(items@).subrange(0, items@.len() as int) =~= views_of(items@));
    }
    r
}

} // verus!
