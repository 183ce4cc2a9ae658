//! Pseudo-random selection helpers.
//!
//! The raw randomness comes from the host runtime's unique-id generator and
//! is handed in as an argument, so every function here is verified for every
//! possible draw: the helpers only reduce a draw to a bounded number or to a
//! choice from a list.

use vstd::prelude::*;

verus! {

/// Reduces a raw draw to a **pseudo** random number between 0 and
/// `to_inclusive`, both ends included.
pub fn pseudo_random_number(raw_draw: u128, to_inclusive: u128) -> (r: u128)
    requires
        to_inclusive < u128::MAX,
    ensures
        r == raw_draw as int % (to_inclusive as int + 1),
        r <= to_inclusive,
{
    raw_draw % (to_inclusive + 1)
}

/// Makes a **pseudo** random selection from a list of items: the raw draw,
/// reduced modulo the length of the list, picks the index.
pub fn pseudo_random_choose<T: Clone>(array: &[T], raw_draw: u128) -> (r: T)
    requires
        array@.len() > 0,
    ensures
        cloned(array@[raw_draw as int % array@.len() as int], r),
{
    let index = pseudo_random_number(raw_draw, (array.len() as u128) - 1) as usize;
    array[index].clone()
}

} // verus!
