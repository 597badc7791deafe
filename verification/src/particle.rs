//! Short-lived things that are only looked at: stars, coins and smoke.

use vstd::prelude::*;
use crate::entity::{counter_after, EntityId, IdSource};
use crate::sequence::lemma_take_all;
use crate::geometry::GridPoint;
use crate::lifespan::LifespanTimer;
use crate::physics::Motion;
use crate::timer::{fresh_timer, TimerMode};

verus! {

/// Time a star lasts after a rat was hurt, in microseconds.
pub const STAR_LIFETIME: u64 = 250_000;

/// Time a coin lasts, in microseconds.
pub const COIN_LIFESPAN: u64 = 750_000;

/// Speed at which a coin rises, in pixels per second.
pub const COIN_LIFT_SPEED: i32 = 25;

/// Time a puff of smoke lasts, in microseconds.
pub const SMOKE_LIFESPAN: u64 = 500_000;

/// Speed at which smoke rises, in pixels per second.
pub const SMOKE_LIFT_SPEED: i32 = 15;

#[derive(Clone, Copy, Debug, PartialEq, Eq, Structural)]
pub enum ParticleKind {
    Star,
    Coin,
    Smoke,
}

/// A particle in the world.
#[derive(Clone, Copy, Debug, PartialEq, Eq, Structural)]
pub struct ParticleEntity {
    pub id: EntityId,
    pub kind: ParticleKind,
    pub position: GridPoint,
    pub motion: Motion,
    pub lifespan: LifespanTimer,
}

/// The particle of the given kind as it starts out at `position`: a star
/// rests, a coin and smoke rise.
pub open spec fn fresh_particle(id: EntityId, kind: ParticleKind, position: GridPoint) -> ParticleEntity {
    ParticleEntity {
        id,
        kind,
        position,
        motion: match kind {
            ParticleKind::Star => Motion::Still,
            ParticleKind::Coin => Motion::Along { dx: 0, dy: COIN_LIFT_SPEED },
            ParticleKind::Smoke => Motion::Along { dx: 0, dy: SMOKE_LIFT_SPEED },
        },
        lifespan: LifespanTimer(
            fresh_timer(
                match kind {
                    ParticleKind::Star => STAR_LIFETIME,
                    ParticleKind::Coin => COIN_LIFESPAN,
                    ParticleKind::Smoke => SMOKE_LIFESPAN,
                },
                TimerMode::Once,
            ),
        ),
    }
}

/// A fresh particle of the given kind at `position`.
pub fn particle(id: EntityId, kind: ParticleKind, position: GridPoint) -> (p: ParticleEntity)
    ensures
        p == fresh_particle(id, kind, position),
{
    let (motion, lifetime) = match kind {
        ParticleKind::Star => (Motion::Still, STAR_LIFETIME),
        ParticleKind::Coin => (Motion::Along { dx: 0, dy: COIN_LIFT_SPEED }, COIN_LIFESPAN),
        ParticleKind::Smoke => (Motion::Along { dx: 0, dy: SMOKE_LIFT_SPEED }, SMOKE_LIFESPAN),
    };
    ParticleEntity { id, kind, position, motion, lifespan: LifespanTimer::new(lifetime) }
}

/// The stars that show the blows at `positions`, with identifiers counted
/// on from `next`.
pub open spec fn stars(positions: Seq<GridPoint>, next: u64) -> Seq<ParticleEntity> {
    Seq::new(
        positions.len(),
        |k: int|
            fresh_particle(EntityId(counter_after(next, k as nat)), ParticleKind::Star, positions[k]),
    )
}

/// Adds a star at each of `positions`, in order.
pub fn spawn_stars(particles: &mut Vec<ParticleEntity>, ids: &mut IdSource, positions: &Vec<GridPoint>)
    ensures
        final(particles)@ == old(particles)@ + stars(positions@, old(ids).next),
        final(ids).next == counter_after(old(ids).next, positions@.len()),
{
    let mut i: usize = 0;
    proof {
        assert(particles@ =~= old(particles)@ + stars(positions@.take(0), old(ids).next));
    }
    while i < positions.len()
        invariant
            i <= positions@.len(),
            particles@ == old(particles)@ + stars(positions@.take(i as int), old(ids).next),
            ids.next == counter_after(old(ids).next, i as nat),
        decreases positions@.len() - i,
    {
        let id = ids.allocate();
        particles.push(particle(id, ParticleKind::Star, positions[i]));
        proof {
            assert(particles@ =~= old(particles)@ + stars(positions@.take(i + 1), old(ids).next));
        }
        i += 1;
    }
    proof {
        lemma_take_all(positions@);
    }
}

} // verus!
