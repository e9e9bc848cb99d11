use vstd::prelude::*;

use rand::rngs::ThreadRng;
use rand::seq::SliceRandom;

verus! {

#[verifier::external_type_specification]
#[verifier::external_body]
pub struct ExThreadRng(ThreadRng);

/// Relies on rand::thread_rng: a handle on the thread-local random generator.
#[verifier::external_body]
pub(crate) fn thread_rng() -> ThreadRng {
    rand::thread_rng()
}

/// Relies on rand's SliceRandom::choose for slices: `None` when the slice is empty,
/// otherwise one of its elements.
#[verifier::external_body]
pub(crate) fn pick(chars: &Vec<char>, rng: &mut ThreadRng) -> (r: Option<char>)
    ensures
        chars@.len() == 0 <==> r is None,
        r matches Some(c) ==> chars@.contains(c),
{
    chars.as_slice().choose(rng).copied()
}

} // verus!
