//! The random draws of the model, made by the `rand` crate.
//!
//! Nothing is known of a draw but its bounds, so the functions that use one
//! state what holds for every value it may take.
use rand::seq::SliceRandom;
use rand::Rng;
use vstd::prelude::*;

verus! {

/// A draw of `rand::Rng::gen_range` on the half-open range `low..high`, made
/// with the generator of the calling thread (`rand::thread_rng`). The draw
/// lies in the range; `gen_range` panics on an empty one, which `requires`
/// leaves out.
#[verifier::external_body]
pub(crate) fn random_in_range(low: u64, high: u64) -> (r: u64)
    requires
        low < high,
    ensures
        low <= r < high,
{
    rand::thread_rng().gen_range(low..high)
}

/// `rand::seq::SliceRandom::shuffle` on the items of `items`, made with the
/// generator of the calling thread. The shuffle only swaps items, so the
/// vector holds the same items as before, each as often as before.
#[verifier::external_body]
pub(crate) fn shuffle<T>(items: &mut Vec<T>)
    ensures
        final(items)@.to_multiset() == old(items)@.to_multiset(),
        final(items)@.len() == old(items)@.len(),
{
    items.shuffle(&mut rand::thread_rng());
}

} // verus!
