//! User-agent classification: the policy that picks a response variant
//! per request. This library uses browser detection: a `User-Agent`
//! header that starts with `Mozilla/5.0` marks a browser, and anything
//! else -- other headers and an absent header alike -- marks a plain
//! tool client.

use vstd::prelude::*;

use crate::text::str_starts_with;

verus! {

/// The two kinds of requester the service distinguishes.
#[derive(PartialEq, Eq, Structural, Clone, Copy, Debug)]
pub enum UserAgentClass {
    Browser,
    ToolClient,
}

/// Whether a present `User-Agent` header value marks a browser.
pub open spec fn is_browser_agent(header: Seq<char>) -> bool {
    "Mozilla/5.0"@.is_prefix_of(header)
}

/// Whether a request with this (possibly absent) `User-Agent` header
/// comes from a browser.
pub open spec fn is_browser(user_agent: Option<&str>) -> bool {
    match user_agent {
        Some(h) => is_browser_agent(h@),
        None => false,
    }
}

/// Classifies a request by its `User-Agent` header. Pure: the result
/// depends on the header value alone.
pub fn classify(user_agent: Option<&str>) -> (c: UserAgentClass)
    ensures
        c == UserAgentClass::Browser <==> is_browser(user_agent),
        c == UserAgentClass::ToolClient <==> !is_browser(user_agent),
{
    match user_agent {
        Some(h) => {
            if str_starts_with(h, "Mozilla/5.0") {
                UserAgentClass::Browser
            } else {
                UserAgentClass::ToolClient
            }
        },
        None => UserAgentClass::ToolClient,
    }
}

} // verus!
