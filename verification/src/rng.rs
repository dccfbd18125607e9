//! The shared pseudo-random source. The generator itself comes from the
//! `rand` crate; this module wraps the three calls the service makes
//! (seeding, drawing from an inclusive range, shuffling) behind contracts
//! and owns the generator in a `RandomSource` value. Exclusive access is
//! enforced by `&mut`: a process that shares one source across request
//! tasks keeps it behind a lock, so no two draws interleave.

use vstd::prelude::*;

use crate::range::Range;
use crate::text::views_of;

verus! {

#[verifier::external_type_specification]
#[verifier::external_body]
pub struct ExStdRng(rand::rngs::StdRng);

/// Relies on rand's `SeedableRng::from_entropy`: seeds a fresh generator
/// from the operating system's entropy source. It panics only when the
/// system cannot supply entropy, which is fatal at startup only.
#[verifier::external_body]
fn fresh_rng() -> rand::rngs::StdRng {
    <rand::rngs::StdRng as rand::SeedableRng>::from_entropy()
}

/// Relies on rand's `Rng::gen_range` on an inclusive `u64` range: it
/// returns a uniformly distributed value of the range, and panics only
/// when the range is empty, which the precondition rules out.
#[verifier::external_body]
fn gen_range_inclusive(rng: &mut rand::rngs::StdRng, lo: u64, hi: u64) -> (n: u64)
    requires
        lo <= hi,
    ensures
        lo <= n <= hi,
{
    rand::Rng::gen_range(rng, lo..=hi)
}

/// Relies on rand's `SliceRandom::shuffle`: it permutes the slice in
/// place by swaps (Fisher-Yates), uniformly at random, so the items --
/// as owned strings and as character sequences -- keep their multiset
/// and their count.
#[verifier::external_body]
fn shuffle_in_place(rng: &mut rand::rngs::StdRng, items: &mut Vec<String>)
    ensures
        final(items)@.len() == old(items)@.len(),
        final(items)@.to_multiset() == old(items)@.to_multiset(),
        views_of(final(items)@).to_multiset() == views_of(old(items)@).to_multiset(),
{
    rand::seq::SliceRandom::shuffle(items.as_mut_slice(), rng)
}

/// A pseudo-random source: one generator instance, seeded once from a
/// secure seed at construction and owned exclusively by its holder.
pub struct RandomSource {
    rng: rand::rngs::StdRng,
}

impl RandomSource {
    /// Creates a source with a freshly seeded generator. Meant to be
    /// called once at startup and handed to the request handlers.
    pub fn new() -> RandomSource {
        RandomSource { rng: fresh_rng() }
    }

    /// Draws one value from the inclusive range: always within the
    /// bounds, also when the range holds a single value.
    pub fn draw(&mut self, range: Range) -> (n: u64)
        requires
            range.wf(),
        ensures
            range.from <= n <= range.to,
    {
        gen_range_inclusive(&mut self.rng, range.from, range.to)
    }

    /// Permutes the items in place: afterwards they hold the same
    /// strings, each exactly as often as before.
    pub fn shuffle(&mut self, items: &mut Vec<String>)
        ensures
            final(items)@.len() == old(items)@.len(),
            final(items)@.to_multiset() == old(items)@.to_multiset(),
            views_of(final(items)@).to_multiset() == views_of(old(items)@).to_multiset(),
    {
        shuffle_in_place(&mut self.rng, items)
    }
}

} // verus!
