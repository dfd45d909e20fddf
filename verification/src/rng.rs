//! The random source: a handle threaded explicitly through every function
//! that consumes entropy, so that runs can be made reproducible by seeding.
//!
//! Everything here is a thin trusted layer over the `rand` crate; nothing
//! is claimed about a drawn value beyond its range.

use vstd::prelude::*;

verus! {

#[verifier::external_type_specification]
#[verifier::external_body]
pub struct ExStdRng(rand::rngs::StdRng);

/// A stream of random values, either seeded (reproducible) or drawn from
/// operating-system entropy.
pub struct RandomSource {
    rng: rand::rngs::StdRng,
}

impl RandomSource {
    /// Relies on `rand::SeedableRng::seed_from_u64` for `StdRng`: builds a
    /// generator whose stream is determined by the seed.
    #[verifier::external_body]
    pub fn from_seed(seed: u64) -> RandomSource {
        RandomSource { rng: <rand::rngs::StdRng as rand::SeedableRng>::seed_from_u64(seed) }
    }

    /// Relies on `rand::SeedableRng::from_entropy` for `StdRng`: builds a
    /// generator from fresh operating-system entropy. It panics if the
    /// operating system's entropy source fails — an environmental failure,
    /// not dependent on any input, so no precondition can exclude it.
    #[verifier::external_body]
    pub fn from_entropy() -> RandomSource {
        RandomSource { rng: <rand::rngs::StdRng as rand::SeedableRng>::from_entropy() }
    }

    /// Relies on `rand::Rng::gen_range` over `0..bound`: returns a value
    /// uniformly distributed in `[0, bound)`, and panics only on an empty
    /// range, which the precondition excludes.
    #[verifier::external_body]
    pub(crate) fn draw_below(&mut self, bound: usize) -> (r: usize)
        requires
            bound >= 1,
        ensures
            r < bound,
    {
        rand::Rng::gen_range(&mut self.rng, 0..bound)
    }

    /// Relies on `rand::Rng::gen::<u8>` with the `Standard` distribution:
    /// returns a byte uniformly distributed over the full range [0, 255].
    #[verifier::external_body]
    pub(crate) fn draw_byte(&mut self) -> u8 {
        rand::Rng::gen(&mut self.rng)
    }
}

} // verus!
