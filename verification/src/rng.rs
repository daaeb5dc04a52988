//! The random source behind the Monte-Carlo sampling.
//!
//! Randomness comes from rand's `SmallRng`. Nothing is promised of the drawn
//! words; the verified helpers below only narrow them to the ranges the
//! sampling code needs, so every caller is proved correct for every possible
//! outcome.

use vstd::prelude::*;

use crate::fixed::{fx_wf, FX_ONE};

verus! {

/// rand's small, fast, per-pixel seedable generator.
#[verifier::external_type_specification]
#[verifier::external_body]
pub struct ExSmallRng(rand::rngs::SmallRng);

/// Relies on rand's `SeedableRng::seed_from_u64` for `SmallRng`: total, and
/// the generator's stream is a function of the seed within one build of the
/// library (rand documents the algorithm as platform-dependent, so nothing
/// more is stated).
#[verifier::external_body]
pub(crate) fn rng_from_seed(seed: u64) -> rand::rngs::SmallRng {
    <rand::rngs::SmallRng as rand::SeedableRng>::seed_from_u64(seed)
}

/// Relies on rand's `RngCore::next_u32` for `SmallRng`: total; nothing is
/// promised of the value drawn.
#[verifier::external_body]
fn rng_next_u32(rng: &mut rand::rngs::SmallRng) -> u32 {
    rand::RngCore::next_u32(rng)
}

/// A scalar drawn from `[0, 1)` on the representable grid.
pub(crate) fn rand_unit(rng: &mut rand::rngs::SmallRng) -> (r: i64)
    ensures
        0 <= r < FX_ONE,
        fx_wf(r as int),
{
    (rng_next_u32(rng) % 65536) as i64
}

/// A scalar drawn from `[-1, 1]` on the representable grid.
pub(crate) fn rand_symmetric(rng: &mut rand::rngs::SmallRng) -> (r: i64)
    ensures
        -FX_ONE <= r <= FX_ONE,
        fx_wf(r as int),
{
    let w: u32 = rng_next_u32(rng) % 131073;
    (w as i64) - FX_ONE
}

} // verus!
