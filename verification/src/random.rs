//! Random draws, taken from the thread-local generator of the `rand` crate.

use rand::Rng;
use vstd::prelude::*;

verus! {

/// Draws a number below `bound` with `rand::Rng::gen_range` on the half-open range from zero
/// to `bound`, from `rand::thread_rng`. The draw is uniform; all that is claimed of it here is
/// that it lies in the range. An empty range makes `gen_range` panic, so `bound` is positive.
#[verifier::external_body]
pub(crate) fn random_below(bound: u64) -> (r: u64)
    requires
        bound > 0,
    ensures
        r < bound,
{
    rand::thread_rng().gen_range(0..bound)
}

/// Flips a fair coin with `rand::Rng::gen`, from `rand::thread_rng`. Nothing is claimed of the
/// outcome.
#[verifier::external_body]
pub(crate) fn random_bool() -> bool {
    rand::thread_rng().gen::<bool>()
}

/// Draws an index into a collection of `len` items, each with the same chance.
pub fn random_index(len: usize) -> (r: usize)
    requires
        len > 0,
    ensures
        r < len,
{
    random_below(len as u64) as usize
}

/// The number that lies `steps` above `low`, for a count of steps that stays at or below
/// `high`.
pub fn step_up(low: u16, high: u16, steps: u64) -> (r: u16)
    requires
        low + steps <= high,
    ensures
        r == low + steps,
{
    low + steps as u16
}

/// Draws a number between `low` and `high`, both included, each with the same chance: it
/// draws how many steps above `low` the number lies.
pub fn random_between(low: u16, high: u16) -> (r: u16)
    requires
        low <= high,
    ensures
        low <= r <= high,
{
    let width: u64 = (high - low) as u64 + 1;
    step_up(low, high, random_below(width))
}

/// The item of a slice at an index.
pub fn pick_at<T>(items: &[T], index: usize) -> (r: &T)
    requires
        index < items@.len(),
    ensures
        *r == items@[index as int],
{
    &items[index]
}

/// Picks one item of a non-empty slice, each with the same chance: it draws the index of the
/// item.
pub fn pick<T>(items: &[T]) -> (r: &T)
    requires
        items@.len() > 0,
    ensures
        exists|i: int| 0 <= i < items@.len() && *r == items@[i],
{
    pick_at(items, random_index(items.len()))
}

} // verus!
