//! A seedable pseudo-random source, threaded as an explicit parameter
//! through every sampling routine so that renders are reproducible.

use vstd::prelude::*;

verus! {

#[verifier::external_type_specification]
#[verifier::external_body]
pub struct ExStdRng(rand::rngs::StdRng);

/// An explicit random source. The contracts of the sampling routines
/// state only what holds of every value it can yield.
pub struct RandSource {
    inner: rand::rngs::StdRng,
}

impl RandSource {
    /// Relies on rand's `SeedableRng::seed_from_u64`: builds a generator
    /// deterministically from the seed. Nothing is assumed of the values
    /// the generator will yield.
    #[verifier::external_body]
    pub fn from_seed(seed: u64) -> (r: RandSource) {
        RandSource { inner: <rand::rngs::StdRng as rand::SeedableRng>::seed_from_u64(seed) }
    }

    /// Relies on rand's `RngExt::random_range`: yields a value of the
    /// half-open range it is given, and panics only when that range is
    /// empty, which the precondition rules out.
    #[verifier::external_body]
    pub(crate) fn next_in(&mut self, lo: i64, hi: i64) -> (r: i64)
        requires
            lo < hi,
        ensures
            lo <= r < hi,
    {
        rand::RngExt::random_range(&mut self.inner, lo..hi)
    }
}

} // verus!
