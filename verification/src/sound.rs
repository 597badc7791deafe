//! Requests to play a sound at a place; playing them is left to the caller.

use vstd::prelude::*;
use crate::geometry::GridPoint;

verus! {

/// The sounds the rules ask for.
#[derive(Clone, Copy, Debug, PartialEq, Eq, Structural)]
pub enum SoundEffect {
    Sow,
    Growth,
    Death,
    FireballSpawn,
    Burn,
    RatDamage,
    Headbonk,
    Bite,
    Invalid,
    Throw,
    GetCoin,
}

/// One sound to be played at one place.
#[derive(Clone, Copy, Debug, PartialEq, Eq, Structural)]
pub struct SoundRequest {
    pub sound: SoundEffect,
    pub position: GridPoint,
}

/// The sequence holding the value of `o`, or nothing.
pub open spec fn seq_of<T>(o: Option<T>) -> Seq<T> {
    match o {
        Some(v) => seq![v],
        None => Seq::empty(),
    }
}

/// Appends the value of `o`, if it has one, to `queue`.
pub fn push_some<T>(queue: &mut Vec<T>, o: Option<T>)
    ensures
        final(queue)@ == old(queue)@ + seq_of(o),
{
    match o {
        Some(v) => {
            queue.push(v);
        },
        None => {
            assert(queue@ =~= old(queue)@ + Seq::<T>::empty());
        },
    }
}

} // verus!
