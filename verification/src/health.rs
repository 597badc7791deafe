//! Damage and death accounting shared by plants and rats.

use vstd::prelude::*;
use crate::enemy::EnemyEntity;
use crate::geometry::GridPoint;
use crate::plant::PlantEntity;
use crate::sequence::{lemma_filter_next, lemma_filter_none, lemma_take_all};

verus! {

/// Remaining and full health of a creature.
#[derive(Clone, Copy, Debug, PartialEq, Eq, Structural)]
pub struct Health {
    pub current: i32,
    pub max: i32,
}

/// How full a health bar is, in three steps.
#[derive(Clone, Copy, Debug, PartialEq, Eq, Structural)]
pub enum HealthLevel {
    /// Less than a quarter is left.
    Low,
    /// A quarter or more is left, and less than three fifths.
    Medium,
    /// Three fifths or more are left.
    High,
}

/// Health left after a hit of `amount` on a creature with `current` health:
/// never below zero, and never above what an `i32` holds.
pub open spec fn reduced_health(current: int, amount: int) -> int {
    if current - amount < 0 {
        0
    } else if current - amount > i32::MAX {
        i32::MAX as int
    } else {
        current - amount
    }
}

impl Health {
    /// Health is never negative.
    pub open spec fn wf(self) -> bool {
        0 <= self.current
    }

    /// The creature still lives.
    pub open spec fn alive(self) -> bool {
        self.current > 0
    }

    /// The value of this health after a hit of `amount`.
    pub open spec fn after_hit(self, amount: i32) -> Health {
        Health { current: reduced_health(self.current as int, amount as int) as i32, max: self.max }
    }

    /// How full the bar of this health is: the share of `current` in
    /// `max`, held against a quarter and against three fifths. A creature
    /// whose full health is not positive has a full bar.
    pub open spec fn level(self) -> HealthLevel {
        if self.max <= 0 {
            HealthLevel::High
        } else if 4 * self.current < self.max {
            HealthLevel::Low
        } else if 5 * self.current < 3 * self.max {
            HealthLevel::Medium
        } else {
            HealthLevel::High
        }
    }

    /// How full the bar of this health is.
    pub fn bar_level(&self) -> (l: HealthLevel)
        ensures
            l == self.level(),
    {
        let current: i64 = self.current as i64;
        let max: i64 = self.max as i64;
        if max <= 0 {
            HealthLevel::High
        } else if 4 * current < max {
            HealthLevel::Low
        } else if 5 * current < 3 * max {
            HealthLevel::Medium
        } else {
            HealthLevel::High
        }
    }

    /// Full health of `amount`.
    pub fn new(amount: i32) -> (h: Health)
        ensures
            h == (Health { current: amount, max: amount }),
    {
        Health { current: amount, max: amount }
    }

    /// Takes `amount` away, stopping at zero.
    pub fn reduce(&mut self, amount: i32)
        ensures
            *final(self) == old(self).after_hit(amount),
            final(self).current == reduced_health(old(self).current as int, amount as int),
            final(self).current >= 0,
            final(self).max == old(self).max,
    {
        let left: i64 = self.current as i64 - amount as i64;
        if left < 0 {
            self.current = 0;
        } else if left > i32::MAX as i64 {
            self.current = i32::MAX;
        } else {
            self.current = left as i32;
        }
    }

    pub fn is_alive(&self) -> (alive: bool)
        ensures
            alive == self.alive(),
    {
        self.current > 0
    }

    pub fn current(&self) -> (c: i32)
        ensures
            c == self.current,
    {
        self.current
    }

    pub fn max(&self) -> (m: i32)
        ensures
            m == self.max,
    {
        self.max
    }
}

impl Default for Health {
    fn default() -> (h: Health)
        ensures
            h == (Health { current: 0, max: 0 }),
    {
        Health { current: 0, max: 0 }
    }
}

/// However large the hit, health stays at or above zero, and a creature with
/// valid health is dead exactly when its health is zero.
pub proof fn lemma_reduce_stops_at_zero(h: Health, amount: i32)
    ensures
        h.after_hit(amount).current >= 0,
        h.after_hit(amount).wf(),
        !h.after_hit(amount).alive() <==> h.after_hit(amount).current == 0,
        h.wf() ==> (!h.alive() <==> h.current == 0),
        h.wf() && amount >= 0 ==> h.after_hit(amount).current <= h.current,
{
}

/// Tells the living plants.
pub open spec fn living_plant() -> spec_fn(PlantEntity) -> bool {
    |p: PlantEntity| p.health.alive()
}

/// Tells the dead plants.
pub open spec fn dead_plant() -> spec_fn(PlantEntity) -> bool {
    |p: PlantEntity| !p.health.alive()
}

/// Tells the living rats.
pub open spec fn living_enemy() -> spec_fn(EnemyEntity) -> bool {
    |e: EnemyEntity| e.health.alive()
}

/// Tells the dead rats.
pub open spec fn dead_enemy() -> spec_fn(EnemyEntity) -> bool {
    |e: EnemyEntity| !e.health.alive()
}

/// Where something died: the places of the dead plants, and after them
/// those of the dead rats.
pub open spec fn death_places(plants: Seq<PlantEntity>, enemies: Seq<EnemyEntity>) -> Seq<GridPoint> {
    plants.filter(dead_plant()).map_values(|p: PlantEntity| p.position) + enemies.filter(
        dead_enemy(),
    ).map_values(|e: EnemyEntity| e.position)
}

/// Removes every plant and every rat that has no health left; the living
/// stay in their order. Returns where something died: first the places of
/// the dead plants, after them those of the dead rats.
pub fn remove_dead(plants: &mut Vec<PlantEntity>, enemies: &mut Vec<EnemyEntity>) -> (deaths: Vec<
    GridPoint,
>)
    ensures
        final(plants)@ == old(plants)@.filter(living_plant()),
        final(enemies)@ == old(enemies)@.filter(living_enemy()),
        deaths@ == death_places(old(plants)@, old(enemies)@),
{
    let mut deaths: Vec<GridPoint> = Vec::new();
    let mut kept_p: Vec<PlantEntity> = Vec::new();
    let mut i: usize = 0;
    proof {
        lemma_filter_none(plants@, living_plant());
        lemma_filter_none(plants@, dead_plant());
        assert(deaths@ =~= plants@.take(0).filter(dead_plant()).map_values(
            |p: PlantEntity| p.position,
        ));
    }
    while i < plants.len()
        invariant
            i <= plants@.len(),
            plants@ == old(plants)@,
            kept_p@ == plants@.take(i as int).filter(living_plant()),
            deaths@ == plants@.take(i as int).filter(dead_plant()).map_values(
                |p: PlantEntity| p.position,
            ),
        decreases plants@.len() - i,
    {
        proof {
            lemma_filter_next(plants@, i as int, living_plant());
            lemma_filter_next(plants@, i as int, dead_plant());
        }
        let p = plants[i];
        if p.health.is_alive() {
            kept_p.push(p);
        } else {
            deaths.push(p.position);
        }
        proof {
            assert(deaths@ =~= plants@.take(i + 1).filter(dead_plant()).map_values(
                |p: PlantEntity| p.position,
            ));
        }
        i += 1;
    }
    proof {
        lemma_take_all(plants@);
    }
    *plants = kept_p;
    let ghost plant_deaths = deaths@;
    let mut kept_e: Vec<EnemyEntity> = Vec::new();
    let mut j: usize = 0;
    proof {
        lemma_filter_none(enemies@, living_enemy());
        lemma_filter_none(enemies@, dead_enemy());
        assert(deaths@ =~= plant_deaths + enemies@.take(0).filter(dead_enemy()).map_values(
            |e: EnemyEntity| e.position,
        ));
    }
    while j < enemies.len()
        invariant
            j <= enemies@.len(),
            enemies@ == old(enemies)@,
            kept_e@ == enemies@.take(j as int).filter(living_enemy()),
            deaths@ == plant_deaths + enemies@.take(j as int).filter(dead_enemy()).map_values(
                |e: EnemyEntity| e.position,
            ),
        decreases enemies@.len() - j,
    {
        proof {
            lemma_filter_next(enemies@, j as int, living_enemy());
            lemma_filter_next(enemies@, j as int, dead_enemy());
        }
        let e = enemies[j];
        if e.health.is_alive() {
            kept_e.push(e);
        } else {
            deaths.push(e.position);
        }
        proof {
            assert(deaths@ =~= plant_deaths + enemies@.take(j + 1).filter(
                dead_enemy(),
            ).map_values(|e: EnemyEntity| e.position));
        }
        j += 1;
    }
    proof {
        lemma_take_all(enemies@);
    }
    *enemies = kept_e;
    deaths
}

} // verus!
