//! Trusted boundary to the random number generator used for shuffling.

use rand::rngs::SmallRng;
use rand::Rng;
use rand::SeedableRng;
use vstd::prelude::*;

verus! {

#[verifier::external_type_specification]
#[verifier::external_body]
pub struct ExSmallRng(SmallRng);

/// Relies on rand's `SmallRng::from_entropy`: a fresh generator seeded from
/// system entropy.  Its output is random, so nothing is promised of it.
#[verifier::external_body]
pub(crate) fn fresh_small_rng() -> SmallRng {
    SmallRng::from_entropy()
}

/// Relies on rand's `Rng::gen_range` over `lo..=hi`: it returns a value of
/// the inclusive range and panics only on an empty one, which the
/// precondition rules out.  Which value comes back is random, so no more is
/// promised.
#[verifier::external_body]
pub(crate) fn rng_between(rng: &mut SmallRng, lo: usize, hi: usize) -> (r: usize)
    requires
        lo <= hi,
    ensures
        lo <= r <= hi,
{
    rng.gen_range(lo..=hi)
}

} // verus!
