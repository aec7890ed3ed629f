//! Random choice among the items of a list.
use vstd::prelude::*;

use rand::seq::SliceRandom;

verus! {

/// Picks an item of `items` at random with `SliceRandom::choose` and the
/// thread's random number generator.
///
/// The contract states only what holds of every outcome: `None` for an
/// empty list, otherwise one of its items. Which item comes back is left
/// open; it depends on the generator's state.
#[verifier::external_body]
pub(crate) fn choose_from<T>(items: &Vec<T>) -> (r: Option<&T>)
    ensures
        items@.len() == 0 ==> r is None,
        items@.len() > 0 ==> r is Some && items@.contains(*r.unwrap()),
{
    items.as_slice().choose(&mut rand::thread_rng())
}

} // verus!
