//! The random source: what this library takes on trust from the `rand` crate.

use rand::rngs::ThreadRng;
use rand::seq::SliceRandom;
use vstd::prelude::*;

verus! {

/// `rand::rngs::ThreadRng`, the handle to the random number generator of the
/// current thread. The library passes it on and knows nothing of what it
/// holds.
#[verifier::external_type_specification]
#[verifier::external_body]
pub struct ExThreadRng(ThreadRng);

/// `rand::thread_rng` hands out the generator of the current thread. Nothing
/// is claimed of the handle that it returns.
pub assume_specification[ rand::thread_rng ]() -> (rng: ThreadRng);

/// Calls `rand::seq::SliceRandom::choose` on the slice of `items` and copies
/// what it picks. The contract claims what that function does for every
/// state of the generator: for an empty slice it returns `None`, otherwise
/// the element at an index below the length, so one of the elements. Which
/// one, and how likely each is, is not claimed.
#[verifier::external_body]
pub(crate) fn choose_item(items: &Vec<usize>, rng: &mut ThreadRng) -> (choice: Option<usize>)
    ensures
        choice is None <==> items@.len() == 0,
        choice matches Some(item) ==> items@.contains(item),
{
    items.choose(rng).copied()
}

} // verus!
