use vstd::prelude::*;
use rand::{Rng, SeedableRng, StdRng};

verus! {

#[verifier::external_type_specification]
#[verifier::external_body]
pub struct ExStdRng(StdRng);

/// Calls `rand::StdRng::from_seed` with a seed of words. The generator's state is opaque here:
/// nothing is claimed of the numbers it will produce.
#[verifier::external_body]
pub(crate) fn seeded_rng(seed: &[usize]) -> StdRng {
    StdRng::from_seed(seed)
}

/// Calls `rand::Rng::choose` and copies the chosen element: `None` when `values` is empty, and
/// otherwise the element at an index the generator draws below the length. Which element that
/// is depends on the generator's state and is not stated.
#[verifier::external_body]
pub(crate) fn choose_copy<T: Copy>(rng: &mut StdRng, values: &[T]) -> (r: Option<T>)
    ensures
        r is None <==> values@.len() == 0,
        r matches Some(v) ==> values@.contains(v),
{
    rng.choose(values).copied()
}

} // verus!
