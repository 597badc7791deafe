//! Identifiers of the things that live in the world.

use vstd::prelude::*;

verus! {

/// Names one entity of the world. Two entities never share an identifier as
/// long as all of them come from one [`IdSource`] that has not run out.
#[derive(Clone, Copy, Debug, PartialEq, Eq, Hash, Structural)]
pub struct EntityId(pub u64);

/// Hands out identifiers in increasing order. A source that has reached the
/// largest `u64` has run out: it stays there, and hands that number out
/// again and again.
#[derive(Clone, Copy, Debug, PartialEq, Eq, Structural)]
pub struct IdSource {
    pub next: u64,
}

/// The counter `count` steps after `n`; it stops at the largest `u64`.
pub open spec fn counter_after(n: u64, count: nat) -> u64 {
    if n + count > u64::MAX {
        u64::MAX
    } else {
        (n + count) as u64
    }
}

/// The counter that follows `n`.
pub open spec fn next_counter(n: u64) -> u64 {
    counter_after(n, 1)
}

impl IdSource {
    /// A source whose first identifier is 0.
    pub fn new() -> (ids: IdSource)
        ensures
            ids.next == 0,
    {
        IdSource { next: 0 }
    }

    /// The source has not run out: the identifiers it handed out so far
    /// are all different.
    pub open spec fn has_room(self) -> bool {
        self.next < u64::MAX
    }

    /// The next identifier; the one after it follows on the next call.
    pub fn allocate(&mut self) -> (id: EntityId)
        ensures
            id == EntityId(old(self).next),
            final(self).next == next_counter(old(self).next),
    {
        let id = EntityId(self.next);
        self.next = if self.next == u64::MAX {
            u64::MAX
        } else {
            self.next + 1
        };
        id
    }

    /// Whether the source has not run out.
    pub fn is_fresh(&self) -> (fresh: bool)
        ensures
            fresh == self.has_room(),
    {
        self.next < u64::MAX
    }
}

/// Counting on goes step by step, and never back. A counter that has not
/// reached the end after `count` steps passed `count` different numbers.
pub proof fn lemma_counter_steps(n: u64, count: nat)
    ensures
        counter_after(n, 0) == n,
        counter_after(n, count + 1) == next_counter(counter_after(n, count)),
        counter_after(n, count) >= n,
        counter_after(n, count) < u64::MAX ==> counter_after(n, count) == n + count,
{
}

} // verus!
