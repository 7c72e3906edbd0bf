//! Trusted boundary around the `rand` crate: the generator type that every
//! draw advances, and the one operation the draw engine asks of it, an
//! in-place shuffle of the pool.

use vstd::prelude::*;

verus! {

/// The process-wide pseudo-random generator: rand's small, fast,
/// non-cryptographic generator. Opaque here; callers construct it (seeded or
/// from entropy) and hand it in by exclusive reference for one draw at a time.
#[verifier::external_type_specification]
#[verifier::external_body]
pub struct ExSmallRng(rand::rngs::SmallRng);

/// Relies on rand's `SliceRandom::shuffle`: a Fisher-Yates permutation of the
/// slice in place, driven by the generator. Its body only swaps elements, so
/// the new contents are a rearrangement of the old; which rearrangement
/// depends on the generator's state, so nothing more is claimed.
#[verifier::external_body]
pub(crate) fn shuffle(pot: &mut Vec<u32>, rng: &mut rand::rngs::SmallRng)
    ensures
        final(pot)@.to_multiset() == old(pot)@.to_multiset(),
{
    rand::seq::SliceRandom::shuffle(pot.as_mut_slice(), rng);
}

} // verus!
