//! An explicit pseudo-random stream.
//!
//! Each rendering task owns one `RandomSource`, seeded independently,
//! so that concurrent pixel evaluations never share mutable state.
//! Nothing is promised about the values drawn: every caller is
//! verified for all possible outcomes.

use vstd::prelude::*;
use rand_xoshiro::rand_core::RngCore;
use rand_xoshiro::rand_core::SeedableRng;
use crate::fixed::SCALE;

verus! {

#[verifier::external_type_specification]
#[verifier::external_body]
pub struct ExXoshiro256PlusPlus(rand_xoshiro::Xoshiro256PlusPlus);

/// A deterministic pseudo-random stream of fixed-point draws.
pub struct RandomSource {
    inner: rand_xoshiro::Xoshiro256PlusPlus,
}

impl RandomSource {
    /// Relies on rand_xoshiro's `Xoshiro256PlusPlus::seed_from_u64`
    /// to build a generator state from a seed.
    #[verifier::external_body]
    pub fn new(seed: u64) -> RandomSource {
        RandomSource { inner: rand_xoshiro::Xoshiro256PlusPlus::seed_from_u64(seed) }
    }

    /// Relies on rand_xoshiro's `RngCore::next_u64` for
    /// `Xoshiro256PlusPlus`; nothing is promised of the draw.
    #[verifier::external_body]
    fn next_raw(&mut self) -> u64 {
        self.inner.next_u64()
    }

    /// A draw in `[0, 1)`, as a fixed-point value in `[0, SCALE)`:
    /// the jitter offsets and the probability samples the evaluator
    /// consumes.
    pub fn next_unit(&mut self) -> (r: i64)
        ensures
            0 <= r < SCALE,
    {
        let raw: u64 = self.next_raw();
        (raw % (SCALE as u64)) as i64
    }

    /// A draw in `[lo, hi)`.
    pub fn next_range(&mut self, lo: i64, hi: i64) -> (r: i64)
        requires
            lo < hi,
            hi - lo <= i64::MAX,
        ensures
            lo <= r < hi,
    {
        let span: u64 = (hi - lo) as u64;
        let raw: u64 = self.next_raw();
        lo + ((raw % span) as i64)
    }
}

} // verus!
