//! Entities that vanish when their time is up.

use vstd::prelude::*;
use crate::particle::ParticleEntity;
use crate::plant::FireballEntity;
use crate::sequence::{lemma_filter_next, lemma_filter_none, lemma_take_all};
use crate::timer::{Timer, TimerMode};

verus! {

/// The time an entity has left.
#[derive(Clone, Copy, Debug, PartialEq, Eq, Structural)]
pub struct LifespanTimer(pub Timer);

impl LifespanTimer {
    /// A lifespan of `duration` microseconds.
    pub fn new(duration: u64) -> (l: LifespanTimer)
        ensures
            l.0 == (Timer {
                duration,
                elapsed: 0,
                mode: TimerMode::Once,
                finished: false,
                times_finished_this_tick: 0,
            }),
    {
        LifespanTimer(Timer::new(duration, TimerMode::Once))
    }

    /// The lifespan after `delta` more microseconds.
    pub open spec fn after_tick(self, delta: u64) -> LifespanTimer {
        LifespanTimer(self.0.after_tick(delta))
    }

    /// The lifespan ran out during the last tick.
    pub open spec fn expired(self) -> bool {
        self.0.times_finished_this_tick > 0
    }
}

/// The fireball after `delta` more microseconds of its lifespan.
pub open spec fn aged_fireball(delta: u64) -> spec_fn(FireballEntity) -> FireballEntity {
    |f: FireballEntity| FireballEntity { lifespan: f.lifespan.after_tick(delta), ..f }
}

/// Tells the fireballs whose time is not up.
pub open spec fn lasting_fireball() -> spec_fn(FireballEntity) -> bool {
    |f: FireballEntity| !f.lifespan.expired()
}

/// The particle after `delta` more microseconds of its lifespan.
pub open spec fn aged_particle(delta: u64) -> spec_fn(ParticleEntity) -> ParticleEntity {
    |p: ParticleEntity| ParticleEntity { lifespan: p.lifespan.after_tick(delta), ..p }
}

/// Tells the particles whose time is not up.
pub open spec fn lasting_particle() -> spec_fn(ParticleEntity) -> bool {
    |p: ParticleEntity| !p.lifespan.expired()
}

/// Advances the lifespan of every fireball and particle by `delta`
/// microseconds, and removes those whose time ran out in this tick. The
/// others stay in their order.
pub fn tick_lifespans(
    fireballs: &mut Vec<FireballEntity>,
    particles: &mut Vec<ParticleEntity>,
    delta: u64,
)
    ensures
        final(fireballs)@ == old(fireballs)@.map_values(aged_fireball(delta)).filter(
            lasting_fireball(),
        ),
        final(particles)@ == old(particles)@.map_values(aged_particle(delta)).filter(
            lasting_particle(),
        ),
{
    let ghost aged_f = fireballs@.map_values(aged_fireball(delta));
    let mut kept_f: Vec<FireballEntity> = Vec::new();
    let mut i: usize = 0;
    proof {
        lemma_filter_none(aged_f, lasting_fireball());
    }
    while i < fireballs.len()
        invariant
            i <= fireballs@.len(),
            fireballs@ == old(fireballs)@,
            aged_f == fireballs@.map_values(aged_fireball(delta)),
            kept_f@ == aged_f.take(i as int).filter(lasting_fireball()),
        decreases fireballs@.len() - i,
    {
        proof {
            lemma_filter_next(aged_f, i as int, lasting_fireball());
        }
        let mut f = fireballs[i];
        let mut timer = f.lifespan.0;
        timer.tick(delta);
        f.lifespan = LifespanTimer(timer);
        if !timer.just_finished() {
            kept_f.push(f);
        }
        i += 1;
    }
    proof {
        lemma_take_all(aged_f);
    }
    *fireballs = kept_f;

    let ghost aged_p = particles@.map_values(aged_particle(delta));
    let mut kept_p: Vec<ParticleEntity> = Vec::new();
    let mut j: usize = 0;
    proof {
        lemma_filter_none(aged_p, lasting_particle());
    }
    while j < particles.len()
        invariant
            j <= particles@.len(),
            particles@ == old(particles)@,
            aged_p == particles@.map_values(aged_particle(delta)),
            kept_p@ == aged_p.take(j as int).filter(lasting_particle()),
        decreases particles@.len() - j,
    {
        proof {
            lemma_filter_next(aged_p, j as int, lasting_particle());
        }
        let mut p = particles[j];
        let mut timer = p.lifespan.0;
        timer.tick(delta);
        p.lifespan = LifespanTimer(timer);
        if !timer.just_finished() {
            kept_p.push(p);
        }
        j += 1;
    }
    proof {
        lemma_take_all(aged_p);
    }
    *particles = kept_p;
}

} // verus!
