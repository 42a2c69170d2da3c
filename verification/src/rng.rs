//! The injectable pseudo-random source: a seeded `StdRng` from the `rand`
//! crate, consumed through uniform draws.

use vstd::prelude::*;

verus! {

#[verifier::external_type_specification]
#[verifier::external_body]
pub struct ExStdRng(rand::rngs::StdRng);

/// Relies on rand's `SeedableRng::seed_from_u64`: builds the generator
/// deterministically from the seed.
#[verifier::external_body]
pub fn rng_from_seed(seed: u64) -> rand::rngs::StdRng {
    <rand::rngs::StdRng as rand::SeedableRng>::seed_from_u64(seed)
}

/// Relies on rand's `Rng::gen`: one uniform 32-bit draw. Nothing can be
/// promised of the value.
#[verifier::external_body]
pub fn rng_next_u32(rng: &mut rand::rngs::StdRng) -> u32 {
    rand::Rng::gen(rng)
}

/// Relies on rand's `Rng::gen_range` over the half-open range `0..bound`:
/// the draw is documented to lie strictly below `bound`, and the range is
/// nonempty so the call cannot panic.
#[verifier::external_body]
pub fn rng_below(rng: &mut rand::rngs::StdRng, bound: u64) -> (r: u64)
    requires
        bound > 0,
    ensures
        r < bound,
{
    rand::Rng::gen_range(rng, 0..bound)
}

} // verus!
