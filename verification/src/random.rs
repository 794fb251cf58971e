//! The source of randomness that a run draws its candidates from.

use vstd::prelude::*;
use rand::Rng;

verus! {

/// `rand`'s thread-local generator, carried through as an opaque value.
#[verifier::external_type_specification]
#[verifier::external_body]
pub struct ExThreadRng(rand::rngs::ThreadRng);

/// Draws an index with `rand::Rng::gen_range` on the range `0..len`. The
/// generator panics on an empty range, so `len` must be positive; whatever
/// it draws lies in the range. Which index comes out is left open.
#[verifier::external_body]
pub(crate) fn random_index(rng: &mut rand::rngs::ThreadRng, len: usize) -> (index: usize)
    requires
        len > 0,
    ensures
        index < len,
{
    rng.gen_range(0..len)
}

} // verus!
