//! A coin shows where a daisy chain was sold.

use vstd::prelude::*;
use crate::entity::{counter_after, EntityId, IdSource};
use crate::geometry::GridPoint;
use crate::particle::{fresh_particle, particle, ParticleEntity, ParticleKind};
use crate::sequence::lemma_take_all;
use crate::sound::{SoundEffect, SoundRequest};

verus! {

/// Asks for a coin at a place.
#[derive(Clone, Copy, Debug, PartialEq, Eq, Structural)]
pub struct GetCoinEvent(pub GridPoint);

/// The coins that the events ask for, with identifiers counted on from
/// `next`.
pub open spec fn coins(events: Seq<GetCoinEvent>, next: u64) -> Seq<ParticleEntity> {
    Seq::new(
        events.len(),
        |k: int|
            fresh_particle(EntityId(counter_after(next, k as nat)), ParticleKind::Coin, events[k].0),
    )
}

/// The sounds of the coins: one at the place of each event.
pub open spec fn coin_sounds(events: Seq<GetCoinEvent>) -> Seq<SoundRequest> {
    Seq::new(
        events.len(),
        |k: int| SoundRequest { sound: SoundEffect::GetCoin, position: events[k].0 },
    )
}

/// Adds a coin for each event, in order. Returns the sounds of the coins.
pub fn make_coins(
    particles: &mut Vec<ParticleEntity>,
    ids: &mut IdSource,
    events: &Vec<GetCoinEvent>,
) -> (sounds: Vec<SoundRequest>)
    ensures
        final(particles)@ == old(particles)@ + coins(events@, old(ids).next),
        final(ids).next == counter_after(old(ids).next, events@.len()),
        sounds@ == coin_sounds(events@),
{
    let mut sounds: Vec<SoundRequest> = Vec::new();
    let mut i: usize = 0;
    proof {
        assert(particles@ =~= old(particles)@ + coins(events@.take(0), old(ids).next));
        assert(sounds@ =~= coin_sounds(events@.take(0)));
    }
    while i < events.len()
        invariant
            i <= events@.len(),
            particles@ == old(particles)@ + coins(events@.take(i as int), old(ids).next),
            ids.next == counter_after(old(ids).next, i as nat),
            sounds@ == coin_sounds(events@.take(i as int)),
        decreases events@.len() - i,
    {
        let id = ids.allocate();
        particles.push(particle(id, ParticleKind::Coin, events[i].0));
        sounds.push(SoundRequest { sound: SoundEffect::GetCoin, position: events[i].0 });
        proof {
            assert(particles@ =~= old(particles)@ + coins(events@.take(i + 1), old(ids).next));
            assert(sounds@ =~= coin_sounds(events@.take(i + 1)));
        }
        i += 1;
    }
    proof {
        lemma_take_all(events@);
    }
    sounds
}

} // verus!
