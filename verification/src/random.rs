//! Chance: the one place where the rules draw random numbers.

use vstd::prelude::*;
use rand::Rng;

verus! {

/// Draws a number below `bound` from the thread's random number generator.
///
/// Calls `rand::Rng::gen_range` on `rand::thread_rng()` with the range
/// `0..bound`. Nothing is proved of it: the contract repeats what the
/// generator promises of every draw, that the value lies in the range, and
/// keeps the empty range out, on which the generator panics.
#[verifier::external_body]
fn random_below(bound: u32) -> (r: u32)
    requires
        bound > 0,
    ensures
        r < bound,
{
    rand::thread_rng().gen_range(0..bound)
}

/// A random number below `bound`, or 0 where `bound` is 0.
pub fn roll_below(bound: u32) -> (r: u32)
    ensures
        bound > 0 ==> r < bound,
        bound == 0 ==> r == 0,
{
    if bound == 0 {
        0
    } else {
        random_below(bound)
    }
}

/// `count` random numbers, each below `bound` (each 0 where `bound` is 0).
pub fn draw_rolls(count: usize, bound: u32) -> (rolls: Vec<u32>)
    ensures
        rolls@.len() == count,
        forall|i: int| 0 <= i < count ==> (#[trigger] rolls@[i]) <= bound,
        bound > 0 ==> forall|i: int| 0 <= i < count ==> (#[trigger] rolls@[i]) < bound,
{
    let mut rolls: Vec<u32> = Vec::new();
    let mut i: usize = 0;
    while i < count
        invariant
            i <= count,
            rolls@.len() == i,
            forall|j: int| 0 <= j < i ==> (#[trigger] rolls@[j]) <= bound,
            bound > 0 ==> forall|j: int| 0 <= j < i ==> (#[trigger] rolls@[j]) < bound,
        decreases count - i,
    {
        let r = roll_below(bound);
        rolls.push(r);
        i += 1;
    }
    rolls
}

/// The roll meant for the item at `index`: the one stored there, or 0 where
/// the rolls run out.
pub open spec fn roll_at(rolls: Seq<u32>, index: int) -> u32 {
    if 0 <= index < rolls.len() {
        rolls[index]
    } else {
        0
    }
}

/// The roll meant for the item at `index`.
pub fn roll_for(rolls: &Vec<u32>, index: usize) -> (r: u32)
    ensures
        r == roll_at(rolls@, index as int),
{
    if index < rolls.len() {
        rolls[index]
    } else {
        0
    }
}

} // verus!
