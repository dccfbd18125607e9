//! The service's routes. Each route has a responder that builds the full
//! response (status, content type, body), and `dispatch` maps a request
//! path plus `User-Agent` header to the right responder, or to a 404
//! response when no route matches.

use vstd::prelude::*;

use crate::classify::{classify, is_browser, UserAgentClass};
use crate::handlers::{both_limits, index_plain, shuffle, upper_limit};
use crate::range::RangeError;
use crate::response::{
    index_page, index_page_text, inverted_order_message, is_numeric_response,
    render_inverted_order_message, ContentType, Response,
};
use crate::rng::RandomSource;
use crate::text::{
    all_digits, dec_value, is_digit, join_seq, parse_u64, split_seq, split_str, str_eq, views_of,
};

verus! {

/// The segments of a request path, split on `/`. A path that starts
/// with `/` yields an empty first segment.
pub open spec fn path_segments(path: Seq<char>) -> Seq<Seq<char>> {
    split_seq(path, '/')
}

/// Whether a path segment is a well-formed unsigned 64-bit number:
/// non-empty, decimal digits only, and within the 64-bit maximum.
pub open spec fn is_u64_segment(seg: Seq<char>) -> bool {
    seg.len() > 0 && all_digits(seg) && dec_value(seg) <= u64::MAX
}

/// The numeric value of one path segment.
pub open spec fn segment_value(path: Seq<char>, i: int) -> int {
    dec_value(path_segments(path)[i])
}

/// The index route: the bare path `/`.
pub open spec fn is_index_path(path: Seq<char>) -> bool {
    let segs = path_segments(path);
    segs.len() == 2 && segs[0].len() == 0 && segs[1].len() == 0
}

/// The upper-limit route: `/{to}` with a numeric segment.
pub open spec fn is_upper_limit_path(path: Seq<char>) -> bool {
    let segs = path_segments(path);
    segs.len() == 2 && segs[0].len() == 0 && is_u64_segment(segs[1])
}

/// The two-bound route: `/{from}/{to}` with two numeric segments.
pub open spec fn is_both_limits_path(path: Seq<char>) -> bool {
    let segs = path_segments(path);
    segs.len() == 3 && segs[0].len() == 0 && is_u64_segment(segs[1]) && is_u64_segment(segs[2])
}

/// The shuffle route: `/shuffle/{list}`.
pub open spec fn is_shuffle_path(path: Seq<char>) -> bool {
    let segs = path_segments(path);
    segs.len() == 3 && segs[0].len() == 0 && segs[1] == "shuffle"@
}

/// The response to a request no route matches.
pub fn not_found() -> (r: Response)
    ensures
        r.status == 404,
        r.content_type == ContentType::TextPlain,
        r.body@ == Seq::<char>::empty(),
{
    Response { status: 404, content_type: ContentType::TextPlain, body: String::new() }
}

/// The index route: browsers get the static HTML page, every other
/// client a plain-text random number between 0 and 100.
pub fn respond_index(source: &mut RandomSource, user_agent: Option<&str>) -> (r: Response)
    ensures
        r.status == 200,
        is_browser(user_agent) ==> r.content_type == ContentType::TextHtml && r.body@
            == index_page_text(),
        !is_browser(user_agent) ==> is_numeric_response(r, 0, 100),
{
    match classify(user_agent) {
        UserAgentClass::Browser => Response {
            status: 200,
            content_type: ContentType::TextHtml,
            body: index_page(),
        },
        UserAgentClass::ToolClient => Response {
            status: 200,
            content_type: ContentType::TextPlain,
            body: index_plain(source),
        },
    }
}

/// The upper-limit route: a plain-text random number between 0 and `to`
/// inclusive, for any `to` up to the 64-bit maximum.
pub fn respond_upper_limit(source: &mut RandomSource, to: u64) -> (r: Response)
    ensures
        is_numeric_response(r, 0, to as int),
{
    Response { status: 200, content_type: ContentType::TextPlain, body: upper_limit(source, to) }
}

/// The two-bound route: a plain-text random number between the bounds
/// when they are in order, and a 400 response with the exact
/// inverted-order message otherwise.
pub fn respond_both_limits(source: &mut RandomSource, from: u64, to: u64) -> (r: Response)
    ensures
        from <= to ==> is_numeric_response(r, from as int, to as int),
        from > to ==> r.status == 400 && r.content_type == ContentType::TextPlain && r.body@
            == inverted_order_message(from as int, to as int),
{
    match both_limits(source, from, to) {
        Ok(body) => Response { status: 200, content_type: ContentType::TextPlain, body },
        Err(RangeError::InvertedOrder(f, t)) => Response {
            status: 400,
            content_type: ContentType::TextPlain,
            body: render_inverted_order_message(f, t),
        },
    }
}

/// The shuffle route: the comma-separated items of the path segment, in
/// a random order, joined by newlines; no item is lost or duplicated.
pub fn respond_shuffle(source: &mut RandomSource, list: &str) -> (r: Response)
    ensures
        r.status == 200,
        r.content_type == ContentType::TextPlain,
        exists|p: Seq<Seq<char>>|
            p.to_multiset() == split_seq(list@, ',').to_multiset() && r.body@ == join_seq(p, '\n'),
{
    Response { status: 200, content_type: ContentType::TextPlain, body: shuffle(source, list) }
}

/// Maps one request to its response, per route:
/// `/` serves the index (HTML for browsers, a number in [0, 100]
/// otherwise); `/{to}` a number in [0, to]; `/{from}/{to}` a number in
/// [from, to] or the 400 inverted-order error; `/shuffle/{list}` the
/// shuffled list; anything else a 404.
pub fn dispatch(source: &mut RandomSource, path: &str, user_agent: Option<&str>) -> (r: Response)
    ensures
        is_index_path(path@) && is_browser(user_agent) ==> r.status == 200 && r.content_type
            == ContentType::TextHtml && r.body@ == index_page_text(),
        is_index_path(path@) && !is_browser(user_agent) ==> is_numeric_response(r, 0, 100),
        is_upper_limit_path(path@) ==> is_numeric_response(r, 0, segment_value(path@, 1)),
        is_both_limits_path(path@) && segment_value(path@, 1) <= segment_value(path@, 2)
            ==> is_numeric_response(r, segment_value(path@, 1), segment_value(path@, 2)),
        is_both_limits_path(path@) && segment_value(path@, 1) > segment_value(path@, 2)
            ==> r.status == 400 && r.content_type == ContentType::TextPlain && r.body@
            == inverted_order_message(segment_value(path@, 1), segment_value(path@, 2)),
        is_shuffle_path(path@) ==> r.status == 200 && r.content_type == ContentType::TextPlain
            && exists|p: Seq<Seq<char>>|
            p.to_multiset() == split_seq(path_segments(path@)[2], ',').to_multiset() && r.body@
                == join_seq(p, '\n'),
        !is_index_path(path@) && !is_upper_limit_path(path@) && !is_both_limits_path(path@)
            && !is_shuffle_path(path@) ==> r.status == 404 && r.body@.len() == 0,
{
    let segs = split_str(path, '/');
    proof {
        assert(views_of(segs@).len() == segs@.len());
        assert(forall|i: int| 0 <= i < segs@.len() ==> views_of(segs@)[i] == segs@[i]@);
    }
    let n = segs.len();
    if n == 2 && segs[0].as_str().unicode_len() == 0 {
        if segs[1].as_str().unicode_len() == 0 {
            respond_index(source, user_agent)
        } else {
            match parse_u64(segs[1].as_str()) {
                Some(to) => respond_upper_limit(source, to),
                None => not_found(),
            }
        }
    } else if n == 3 && segs[0].as_str().unicode_len() == 0 {
        if str_eq(segs[1].as_str(), "shuffle") {
            proof {
                reveal_strlit("shuffle");
                assert(!is_digit("shuffle"@[0]));
            }
            respond_shuffle(source, segs[2].as_str())
        } else {
            let from_parsed = parse_u64(segs[1].as_str());
            let to_parsed = parse_u64(segs[2].as_str());
            match (from_parsed, to_parsed) {
                (Some(from), Some(to)) => respond_both_limits(source, from, to),
                _ => not_found(),
            }
        }
    } else {
        not_found()
    }
}

} // verus!
