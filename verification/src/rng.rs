//! The persistent random number generator, behind trusted wrappers
//! around the rand crate.

use vstd::prelude::*;
use rand::rngs::StdRng;

verus! {

#[verifier::external_type_specification]
#[verifier::external_body]
pub struct ExStdRng(StdRng);

/// Relies on rand's `SeedableRng::seed_from_u64`: builds a generator
/// whose stream depends on the seed alone; it never fails.
#[verifier::external_body]
pub fn seed_rng(seed: u64) -> StdRng {
    <StdRng as rand::SeedableRng>::seed_from_u64(seed)
}

/// Relies on rand's `Rng::gen_range` over `0..n`: yields a value of that
/// range; it panics only on an empty range, which the precondition
/// rules out. Nothing more can be promised of a random draw.
#[verifier::external_body]
pub fn rng_below(rng: &mut StdRng, n: usize) -> (r: usize)
    requires
        n >= 1,
    ensures
        r < n,
{
    rand::Rng::gen_range(rng, 0..n)
}

} // verus!
