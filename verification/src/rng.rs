//! The injectable, seedable source of orbital phases.
//!
//! Construction is the only non-deterministic part of the simulation:
//! when a caller does not fix a body's orbital phase, one is drawn
//! uniformly from `[0, 2)` half-turns. The draw goes through a seedable
//! generator handed in by the caller, so any run can be reproduced by
//! reusing its seed.

use vstd::prelude::*;

verus! {

#[verifier::external_type_specification]
#[verifier::external_body]
pub struct ExStdRng(rand::rngs::StdRng);

/// Relies on rand's `SeedableRng::seed_from_u64`: builds a generator
/// whose stream of values is a function of the seed alone (within one
/// build of the library; rand does not promise portability of the
/// stream). Nothing is promised of the generator's state.
#[verifier::external_body]
pub fn seed_rng(seed: u64) -> rand::rngs::StdRng {
    <rand::rngs::StdRng as rand::SeedableRng>::seed_from_u64(seed)
}

/// Relies on rand's `RngExt::random_range` on the non-empty range
/// `0..PHASE_FULL`: the result lies in that range. Which value comes
/// back depends on the generator's state, so nothing more is stated of
/// any single draw.
#[verifier::external_body]
pub fn draw_phase(rng: &mut rand::rngs::StdRng) -> (r: i128)
    ensures
        0 <= r < crate::orbit::PHASE_FULL,
{
    rand::RngExt::random_range(rng, 0i128..2_000_000i128)
}

} // verus!
