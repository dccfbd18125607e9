//! Inclusive integer ranges: the bounds a caller may ask for, their
//! defaults, and the single validation gate every numeric endpoint
//! routes through.

use vstd::prelude::*;

verus! {

/// An inclusive range of unsigned 64-bit values. Well-formed ranges
/// satisfy `from <= to`; every constructor of this library only hands
/// out well-formed ranges.
#[derive(PartialEq, Eq, Structural, Clone, Copy, Debug)]
pub struct Range {
    pub from: u64,
    pub to: u64,
}

impl Range {
    /// Both bounds are inclusive, so a range is meaningful exactly when
    /// the lower bound does not exceed the upper one.
    pub open spec fn wf(self) -> bool {
        self.from <= self.to
    }
}

/// The one recoverable request error: the caller gave bounds in the
/// wrong order. Carries the (defaulted) lower and upper bound as seen
/// by the resolver.
#[derive(PartialEq, Eq, Structural, Clone, Copy, Debug)]
pub enum RangeError {
    InvertedOrder(u64, u64),
}

/// The lower bound actually used: a missing lower bound defaults to 0.
pub open spec fn effective_from(from: Option<u64>) -> u64 {
    match from {
        Some(v) => v,
        None => 0,
    }
}

/// The upper bound actually used: a missing upper bound defaults to 100.
pub open spec fn effective_to(to: Option<u64>) -> u64 {
    match to {
        Some(v) => v,
        None => 100,
    }
}

/// Validates and normalizes optional bounds. Defaults are applied first
/// (0 below, 100 above); the defaulted bounds are then required to be in
/// order, so that only well-formed ranges leave this gate.
pub fn resolve(from: Option<u64>, to: Option<u64>) -> (r: Result<Range, RangeError>)
    ensures
        r is Ok <==> effective_from(from) <= effective_to(to),
        r matches Ok(rg) ==> rg.from == effective_from(from) && rg.to == effective_to(to) && rg.wf(),
        r matches Err(e) ==> e == RangeError::InvertedOrder(effective_from(from), effective_to(to)),
{
    let lo = from.unwrap_or(0);
    let hi = to.unwrap_or(100);
    if lo > hi {
        Err(RangeError::InvertedOrder(lo, hi))
    } else {
        Ok(Range { from: lo, to: hi })
    }
}

} // verus!
