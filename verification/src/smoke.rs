//! Smoke rises where something burned.

use vstd::prelude::*;
use crate::entity::{counter_after, EntityId, IdSource};
use crate::geometry::GridPoint;
use crate::particle::{fresh_particle, particle, ParticleEntity, ParticleKind};
use crate::sequence::lemma_take_all;

verus! {

/// Asks for a puff of smoke at a place.
#[derive(Clone, Copy, Debug, PartialEq, Eq, Structural)]
pub struct SpawnSmokeEvent(pub GridPoint);

/// The puffs of smoke that the events ask for, with identifiers counted on
/// from `next`.
pub open spec fn smoke_puffs(events: Seq<SpawnSmokeEvent>, next: u64) -> Seq<ParticleEntity> {
    Seq::new(
        events.len(),
        |k: int|
            fresh_particle(EntityId(counter_after(next, k as nat)), ParticleKind::Smoke, events[k].0),
    )
}

/// Adds a puff of smoke for each event, in order.
pub fn spawn_smoke(
    particles: &mut Vec<ParticleEntity>,
    ids: &mut IdSource,
    events: &Vec<SpawnSmokeEvent>,
)
    ensures
        final(particles)@ == old(particles)@ + smoke_puffs(events@, old(ids).next),
        final(ids).next == counter_after(old(ids).next, events@.len()),
{
    let mut i: usize = 0;
    proof {
        assert(particles@ =~= old(particles)@ + smoke_puffs(events@.take(0), old(ids).next));
    }
    while i < events.len()
        invariant
            i <= events@.len(),
            particles@ == old(particles)@ + smoke_puffs(events@.take(i as int), old(ids).next),
            ids.next == counter_after(old(ids).next, i as nat),
        decreases events@.len() - i,
    {
        let id = ids.allocate();
        particles.push(particle(id, ParticleKind::Smoke, events[i].0));
        proof {
            assert(particles@ =~= old(particles)@ + smoke_puffs(
                events@.take(i + 1),
                old(ids).next,
            ));
        }
        i += 1;
    }
    proof {
        lemma_take_all(events@);
    }
}

} // verus!
