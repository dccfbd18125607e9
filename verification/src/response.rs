//! Response rendering: content types, the response record the service
//! hands back per request, and the exact texts of the bodies it emits
//! (plain numbers with a trailing newline, the inverted-order error
//! message, and the static index page).

use vstd::prelude::*;

use crate::text::{all_digits, dec_rep, dec_value, u64_to_string};

verus! {

/// The two content types the service emits.
#[derive(PartialEq, Eq, Structural, Clone, Copy, Debug)]
pub enum ContentType {
    TextHtml,
    TextPlain,
}

impl ContentType {
    /// The value of the `Content-Type` header for this content type.
    pub fn header_value(&self) -> (r: String)
        ensures
            *self == ContentType::TextHtml ==> r@ == "text/html; charset=utf-8"@,
            *self == ContentType::TextPlain ==> r@ == "text/plain; charset=utf-8"@,
    {
        match self {
            ContentType::TextHtml => String::from_str("text/html; charset=utf-8"),
            ContentType::TextPlain => String::from_str("text/plain; charset=utf-8"),
        }
    }
}

/// One finished response: status code, content type, and body text.
pub struct Response {
    pub status: u16,
    pub content_type: ContentType,
    pub body: String,
}

/// The body of a plain-text numeric response: the number in decimal,
/// terminated by a single newline.
pub open spec fn numeric_body(n: int) -> Seq<char> {
    dec_rep(n).push('\n')
}

/// A 200 plain-text response whose body is some number of the inclusive
/// range, rendered in decimal with a trailing newline.
pub open spec fn is_numeric_response(r: Response, lo: int, hi: int) -> bool {
    &&& r.status == 200
    &&& r.content_type == ContentType::TextPlain
    &&& exists|n: u64| lo <= n <= hi && r.body@ == numeric_body(n as int)
}

/// Renders a number as a plain-text body.
pub fn render_number(n: u64) -> (r: String)
    ensures
        r@ == numeric_body(n as int),
        all_digits(r@.drop_last()),
        dec_value(r@.drop_last()) == n,
{
    let mut r = u64_to_string(n);
    proof {
        reveal_strlit("\n");
        assert(dec_rep(n as int) + "\n"@ =~= numeric_body(n as int));
    }
    r.append("\n");
    proof {
        assert(r@.drop_last() =~= dec_rep(n as int));
    }
    r
}

/// The exact text of the inverted-order error body: it names both bounds
/// and how to correct the request, and carries no trailing newline.
pub open spec fn inverted_order_message(from: int, to: int) -> Seq<char> {
    "Wrong parameter order: "@ + dec_rep(from) + " should be <= "@ + dec_rep(to)
        + " (try switching them around)."@
}

/// Renders the inverted-order error body.
pub fn render_inverted_order_message(from: u64, to: u64) -> (r: String)
    ensures
        r@ == inverted_order_message(from as int, to as int),
{
    let mut r = String::from_str("Wrong parameter order: ");
    let from_text = u64_to_string(from);
    r.append(from_text.as_str());
    r.append(" should be <= ");
    let to_text = u64_to_string(to);
    r.append(to_text.as_str());
    r.append(" (try switching them around).");
    r
}

/// The text of the static informational index page served to browsers.
pub open spec fn index_page_text() -> Seq<char> {
    "<!DOCTYPE html><html><head><meta charset=\"utf-8\"><title>Randoku</title></head><body><h1>Randoku</h1><p>Random numbers over HTTP. Ask for a number up to an inclusive upper bound, between two inclusive bounds, or shuffle a comma-separated list.</p></body></html>"@
}

/// Renders the static index page.
pub fn index_page() -> (r: String)
    ensures
        r@ == index_page_text(),
{
    String::from_str(
        "<!DOCTYPE html><html><head><meta charset=\"utf-8\"><title>Randoku</title></head><body><h1>Randoku</h1><p>Random numbers over HTTP. Ask for a number up to an inclusive upper bound, between two inclusive bounds, or shuffle a comma-separated list.</p></body></html>",
    )
}

} // verus!
