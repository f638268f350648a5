//! A seedable random source for weight initialization, backed by rand's
//! standard generator. Randomness is used only at creation time, and is
//! injected explicitly so that tests are reproducible.

use vstd::prelude::*;

verus! {

#[verifier::external_type_specification]
#[verifier::external_body]
pub struct ExStdRng(rand::rngs::StdRng);

/// An explicitly seeded stream of raw fixed-point draws.
pub struct RandomSource {
    inner: rand::rngs::StdRng,
}

/// Relies on rand_core's `SeedableRng::seed_from_u64` to build a
/// `StdRng` deterministically from a word-sized seed.
#[verifier::external_body]
fn std_rng_from_seed(seed: u64) -> rand::rngs::StdRng {
    <rand::rngs::StdRng as rand::SeedableRng>::seed_from_u64(seed)
}

/// Relies on rand's `RngExt::random_range` over an inclusive integer
/// range: the sample lies within the range, and the call panics only on
/// an empty range, which the precondition rules out.
#[verifier::external_body]
fn std_rng_draw(rng: &mut rand::rngs::StdRng, lo: i64, hi: i64) -> (r: i64)
    requires
        lo <= hi,
    ensures
        lo <= r <= hi,
{
    rand::RngExt::random_range(rng, lo..=hi)
}

impl RandomSource {
    /// A source whose whole stream is determined by `seed`.
    pub fn from_seed(seed: u64) -> RandomSource {
        RandomSource { inner: std_rng_from_seed(seed) }
    }

    /// The next draw, uniform over the inclusive range `[lo, hi]`.
    pub fn draw(&mut self, lo: i64, hi: i64) -> (r: i64)
        requires
            lo <= hi,
        ensures
            lo <= r <= hi,
    {
        std_rng_draw(&mut self.inner, lo, hi)
    }
}

} // verus!
