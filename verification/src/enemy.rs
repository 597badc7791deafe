//! Rats: they appear at the spawner, walk to the nearest plant and bite it.

use vstd::prelude::*;
use crate::entity::{EntityId, IdSource, next_counter};
use crate::geometry::{clamp_coordinate, distance_squared, strictly_within, GridPoint};
use crate::health::Health;
use crate::physics::Motion;
use crate::plant::{
    DamagePlantEvent, PlantEntity, PlantType, SowPlantEvent, SpewFireEvent, DRAGONFRUIT_STRENGTH,
    GNOME_STRENGTH, PINEAPPLE_MAX_GENERATION, PINEAPPLE_SPREAD_DISTANCE, PINEAPPLE_STRENGTH,
};
use crate::random::{draw_rolls, roll_at, roll_for};
use crate::sound::{push_some, seq_of, SoundEffect, SoundRequest};
use crate::timer::{fresh_timer, Timer, TimerMode};

verus! {

pub const ENEMY_RADIUS: u32 = 30;

/// A rat farther than this from the player is taken out of the world.
pub const ENEMY_DESPAWN_DISTANCE: u32 = 1500;

/// A rat bites a plant that is nearer than this.
pub const EAT_RADIUS_PX: u32 = 80;

/// Time between two rats from one spawner, in microseconds.
pub const SPAWN_INTERVAL: u64 = 1_000_000;

/// Speed of a rat, in pixels per second.
pub const ENEMY_MOVE_SPEED: u32 = 120;

/// A spawner adds no rat while this many are alive.
pub const ENEMY_SPAWN_LIMIT: usize = 3;

/// Time a rat waits between two bites, in microseconds.
pub const BITE_COOLDOWN: u64 = 2_500_000;

pub const BITE_STRENGTH: i32 = 1;

pub const ENEMY_MAX_HEALTH: i32 = 5;

/// Number of places on the ring around a bitten pineapple.
pub const RING_PLACES: u32 = 12;

/// Runs while a rat may not bite.
#[derive(Clone, Copy, Debug, PartialEq, Eq, Structural)]
pub struct BiteCooldown(pub Timer);

/// Asks for `amount` of health to be taken from a rat; `position` is where
/// the blow shows.
#[derive(Clone, Copy, Debug, PartialEq, Eq, Structural)]
pub struct DamageEnemyEvent {
    pub enemy_entity: EntityId,
    pub amount: i32,
    pub position: GridPoint,
}

/// A rat in the world.
#[derive(Clone, Copy, Debug, PartialEq, Eq, Structural)]
pub struct EnemyEntity {
    pub id: EntityId,
    pub position: GridPoint,
    pub health: Health,
    /// Present while the rat may not bite.
    pub bite_cooldown: Option<BiteCooldown>,
    pub motion: Motion,
}

/// The rat as it enters the world at `spawn_position`.
pub open spec fn fresh_enemy(id: EntityId, spawn_position: GridPoint) -> EnemyEntity {
    EnemyEntity {
        id,
        position: spawn_position,
        health: Health { current: ENEMY_MAX_HEALTH, max: ENEMY_MAX_HEALTH },
        bite_cooldown: None,
        motion: Motion::Still,
    }
}

/// A fresh rat at `spawn_position`, at full health and free to bite.
pub fn enemy(id: EntityId, spawn_position: GridPoint) -> (e: EnemyEntity)
    ensures
        e == fresh_enemy(id, spawn_position),
{
    EnemyEntity {
        id,
        position: spawn_position,
        health: Health::new(ENEMY_MAX_HEALTH),
        bite_cooldown: None,
        motion: Motion::Still,
    }
}

/// The rats, each at rest.
pub open spec fn frozen(enemies: Seq<EnemyEntity>) -> Seq<EnemyEntity> {
    Seq::new(enemies.len(), |i: int| EnemyEntity { motion: Motion::Still, ..enemies[i] })
}

/// Stops every rat where it stands.
pub fn freeze_enemies(enemies: &mut Vec<EnemyEntity>)
    ensures
        final(enemies)@ == frozen(old(enemies)@),
{
    let mut i: usize = 0;
    while i < enemies.len()
        invariant
            i <= enemies@.len(),
            enemies@.len() == old(enemies)@.len(),
            forall|j: int|
                0 <= j < i ==> (#[trigger] enemies@[j]) == (EnemyEntity {
                    motion: Motion::Still,
                    ..old(enemies)@[j]
                }),
            forall|j: int| i <= j < enemies@.len() ==> (#[trigger] enemies@[j]) == old(enemies)@[j],
        decreases enemies@.len() - i,
    {
        let mut e = enemies[i];
        e.motion = Motion::Still;
        enemies.set(i, e);
        i += 1;
    }
    proof {
        assert(enemies@ =~= frozen(old(enemies)@));
    }
}

/// `index` names the plant nearest to `from`: no plant is nearer, and every
/// plant before it is farther away.
pub open spec fn is_nearest(from: GridPoint, plants: Seq<PlantEntity>, index: int) -> bool {
    &&& 0 <= index < plants.len()
    &&& forall|j: int|
        0 <= j < plants.len() ==> distance_squared(from, plants[index].position)
            <= distance_squared(from, (#[trigger] plants[j]).position)
    &&& forall|j: int|
        0 <= j < index ==> distance_squared(from, plants[index].position) < distance_squared(
            from,
            (#[trigger] plants[j]).position,
        )
}

/// The index of the plant nearest to `from`; of several at the same
/// distance, the first.
pub open spec fn nearest_index(from: GridPoint, plants: Seq<PlantEntity>) -> int {
    choose|index: int| is_nearest(from, plants, index)
}

/// At most one index names the nearest plant.
pub proof fn lemma_nearest_is_unique(from: GridPoint, plants: Seq<PlantEntity>, a: int, b: int)
    requires
        is_nearest(from, plants, a),
        is_nearest(from, plants, b),
    ensures
        a == b,
        nearest_index(from, plants) == a,
{
    if a < b {
        assert(distance_squared(from, plants[b].position) < distance_squared(
            from,
            plants[a].position,
        ));
        assert(distance_squared(from, plants[a].position) <= distance_squared(
            from,
            plants[b].position,
        ));
    }
    if b < a {
        assert(distance_squared(from, plants[a].position) < distance_squared(
            from,
            plants[b].position,
        ));
        assert(distance_squared(from, plants[b].position) <= distance_squared(
            from,
            plants[a].position,
        ));
    }
    let c = nearest_index(from, plants);
    assert(is_nearest(from, plants, c));
    if c < a {
        assert(distance_squared(from, plants[a].position) < distance_squared(
            from,
            plants[c].position,
        ));
        assert(distance_squared(from, plants[c].position) <= distance_squared(
            from,
            plants[a].position,
        ));
    }
    if a < c {
        assert(distance_squared(from, plants[c].position) < distance_squared(
            from,
            plants[a].position,
        ));
        assert(distance_squared(from, plants[a].position) <= distance_squared(
            from,
            plants[c].position,
        ));
    }
}

/// The plant nearest to `from`, if there is any plant.
pub fn nearest_plant(from: GridPoint, plants: &Vec<PlantEntity>) -> (found: Option<usize>)
    ensures
        found.is_none() <==> plants@.len() == 0,
        found matches Some(index) ==> is_nearest(from, plants@, index as int) && index
            == nearest_index(from, plants@),
{
    if plants.len() == 0 {
        return None;
    }
    let mut best: usize = 0;
    let mut best_distance: u128 = from.distance_squared(&plants[0].position);
    let mut i: usize = 1;
    while i < plants.len()
        invariant
            1 <= i <= plants@.len(),
            best < i,
            best_distance == distance_squared(from, plants@[best as int].position),
            forall|j: int|
                0 <= j < i ==> best_distance <= distance_squared(
                    from,
                    (#[trigger] plants@[j]).position,
                ),
            forall|j: int|
                0 <= j < best ==> best_distance < distance_squared(
                    from,
                    (#[trigger] plants@[j]).position,
                ),
        decreases plants@.len() - i,
    {
        let d = from.distance_squared(&plants[i].position);
        if d < best_distance {
            best = i;
            best_distance = d;
        }
        i += 1;
    }
    proof {
        lemma_nearest_is_unique(from, plants@, best as int, best as int);
    }
    Some(best)
}

/// The place on the ring around a pineapple that a roll picks, as an offset
/// from the pineapple. Every place is exactly the spread distance away.
pub open spec fn spec_ring_offset(roll: u32) -> (int, int) {
    let k = roll % RING_PLACES;
    if k == 0 {
        (45, 0)
    } else if k == 1 {
        (36, 27)
    } else if k == 2 {
        (27, 36)
    } else if k == 3 {
        (0, 45)
    } else if k == 4 {
        (-27, 36)
    } else if k == 5 {
        (-36, 27)
    } else if k == 6 {
        (-45, 0)
    } else if k == 7 {
        (-36, -27)
    } else if k == 8 {
        (-27, -36)
    } else if k == 9 {
        (0, -45)
    } else if k == 10 {
        (27, -36)
    } else {
        (36, -27)
    }
}

/// Every place on the ring is exactly the spread distance from its middle.
pub proof fn lemma_ring_places_on_ring(roll: u32)
    ensures
        spec_ring_offset(roll).0 * spec_ring_offset(roll).0 + spec_ring_offset(roll).1
            * spec_ring_offset(roll).1 == PINEAPPLE_SPREAD_DISTANCE * PINEAPPLE_SPREAD_DISTANCE,
        -PINEAPPLE_SPREAD_DISTANCE <= spec_ring_offset(roll).0 <= PINEAPPLE_SPREAD_DISTANCE,
        -PINEAPPLE_SPREAD_DISTANCE <= spec_ring_offset(roll).1 <= PINEAPPLE_SPREAD_DISTANCE,
{
    assert(45 * 45 == 2025 && (-45) * (-45) == 2025 && 36 * 36 == 1296 && (-36) * (-36) == 1296
        && 27 * 27 == 729 && (-27) * (-27) == 729 && 0 * 0 == 0) by (nonlinear_arith);
    let o = spec_ring_offset(roll);
    let x = o.0;
    let y = o.1;
    assert(x == 45 || x == -45 || x == 36 || x == -36 || x == 27 || x == -27 || x == 0);
    assert(y == 45 || y == -45 || y == 36 || y == -36 || y == 27 || y == -27 || y == 0);
    assert(x * x == 2025 || x * x == 1296 || x * x == 729 || x * x == 0);
    assert(x * x == 2025 <==> y * y == 0);
    assert(x * x == 1296 <==> y * y == 729);
    assert(x * x == 729 <==> y * y == 1296);
    assert(x * x == 0 <==> y * y == 2025);
    assert(PINEAPPLE_SPREAD_DISTANCE * PINEAPPLE_SPREAD_DISTANCE == 2025);
}

/// The place on the ring around a pineapple that a roll picks.
pub fn ring_offset(roll: u32) -> (offset: (i32, i32))
    ensures
        offset.0 == spec_ring_offset(roll).0,
        offset.1 == spec_ring_offset(roll).1,
        offset.0 * offset.0 + offset.1 * offset.1 == PINEAPPLE_SPREAD_DISTANCE
            * PINEAPPLE_SPREAD_DISTANCE,
{
    proof {
        lemma_ring_places_on_ring(roll);
    }
    let k = roll % RING_PLACES;
    if k == 0 {
        (45, 0)
    } else if k == 1 {
        (36, 27)
    } else if k == 2 {
        (27, 36)
    } else if k == 3 {
        (0, 45)
    } else if k == 4 {
        (-27, 36)
    } else if k == 5 {
        (-36, 27)
    } else if k == 6 {
        (-45, 0)
    } else if k == 7 {
        (-36, -27)
    } else if k == 8 {
        (-27, -36)
    } else if k == 9 {
        (0, -45)
    } else if k == 10 {
        (27, -36)
    } else {
        (36, -27)
    }
}

/// Where the offspring of a pineapple at `position` is sown for a roll.
pub open spec fn spread_position(position: GridPoint, roll: u32) -> GridPoint {
    GridPoint {
        x: clamp_coordinate(position.x + spec_ring_offset(roll).0) as i32,
        y: clamp_coordinate(position.y + spec_ring_offset(roll).1) as i32,
    }
}

/// How a plant answers a bite.
#[derive(Clone, Copy, Debug, PartialEq, Eq, Structural)]
pub struct BiteResponse {
    /// The blow the rat takes.
    pub damage_enemy: Option<DamageEnemyEvent>,
    /// The offspring a pineapple leaves.
    pub sow: Option<SowPlantEvent>,
    /// The fire a dragonfruit spews.
    pub spew: Option<SpewFireEvent>,
    pub sound: Option<SoundRequest>,
}

/// The answer of `plant` to a bite by the rat `enemy_id` that stands at
/// `enemy_position`.
///
/// A seedling does nothing, nor does a daisy. A grown pineapple hurts the
/// rat and, unless it is of the last generation, leaves one offspring of the
/// next generation on the ring around it. A grown dragonfruit hurts the rat
/// and spews fire. A grown gnome hurts the rat.
pub open spec fn spec_bite_response(
    enemy_id: EntityId,
    enemy_position: GridPoint,
    plant: PlantEntity,
    roll: u32,
) -> BiteResponse {
    if !plant.mature() {
        BiteResponse { damage_enemy: None, sow: None, spew: None, sound: None }
    } else {
        match plant.plant.plant_type {
            PlantType::Daisy => BiteResponse {
                damage_enemy: None,
                sow: None,
                spew: None,
                sound: None,
            },
            PlantType::Pineapple(generation) => BiteResponse {
                damage_enemy: Some(
                    DamageEnemyEvent {
                        enemy_entity: enemy_id,
                        amount: PINEAPPLE_STRENGTH,
                        position: enemy_position,
                    },
                ),
                sow: if generation < PINEAPPLE_MAX_GENERATION {
                    Some(
                        SowPlantEvent {
                            position: spread_position(plant.position, roll),
                            seed_type: PlantType::Pineapple((generation + 1) as i32),
                        },
                    )
                } else {
                    None
                },
                spew: None,
                sound: Some(
                    SoundRequest { sound: SoundEffect::RatDamage, position: enemy_position },
                ),
            },
            PlantType::Dragonfruit => BiteResponse {
                damage_enemy: Some(
                    DamageEnemyEvent {
                        enemy_entity: enemy_id,
                        amount: DRAGONFRUIT_STRENGTH,
                        position: enemy_position,
                    },
                ),
                sow: None,
                spew: Some(SpewFireEvent { plant_entity: plant.id, origin: plant.position }),
                sound: Some(
                    SoundRequest { sound: SoundEffect::RatDamage, position: enemy_position },
                ),
            },
            PlantType::Gnome => BiteResponse {
                damage_enemy: Some(
                    DamageEnemyEvent {
                        enemy_entity: enemy_id,
                        amount: GNOME_STRENGTH,
                        position: enemy_position,
                    },
                ),
                sow: None,
                spew: None,
                sound: Some(
                    SoundRequest { sound: SoundEffect::Headbonk, position: enemy_position },
                ),
            },
        }
    }
}

/// The answer of `plant` to a bite; `roll` picks the place of a pineapple's
/// offspring.
pub fn bite_response(
    enemy_id: EntityId,
    enemy_position: GridPoint,
    plant: &PlantEntity,
    roll: u32,
) -> (response: BiteResponse)
    ensures
        response == spec_bite_response(enemy_id, enemy_position, *plant, roll),
{
    let nothing = BiteResponse { damage_enemy: None, sow: None, spew: None, sound: None };
    if plant.growth.is_some() {
        return nothing;
    }
    match plant.plant.plant_type {
        PlantType::Daisy => nothing,
        PlantType::Pineapple(generation) => {
            let sow = if generation < PINEAPPLE_MAX_GENERATION {
                let offset = ring_offset(roll);
                Some(
                    SowPlantEvent {
                        position: plant.position.translated(offset.0, offset.1),
                        seed_type: PlantType::Pineapple(generation + 1),
                    },
                )
            } else {
                None
            };
            BiteResponse {
                damage_enemy: Some(
                    DamageEnemyEvent {
                        enemy_entity: enemy_id,
                        amount: PINEAPPLE_STRENGTH,
                        position: enemy_position,
                    },
                ),
                sow,
                spew: None,
                sound: Some(
                    SoundRequest { sound: SoundEffect::RatDamage, position: enemy_position },
                ),
            }
        },
        PlantType::Dragonfruit => BiteResponse {
            damage_enemy: Some(
                DamageEnemyEvent {
                    enemy_entity: enemy_id,
                    amount: DRAGONFRUIT_STRENGTH,
                    position: enemy_position,
                },
            ),
            sow: None,
            spew: Some(SpewFireEvent { plant_entity: plant.id, origin: plant.position }),
            sound: Some(SoundRequest { sound: SoundEffect::RatDamage, position: enemy_position }),
        },
        PlantType::Gnome => BiteResponse {
            damage_enemy: Some(
                DamageEnemyEvent {
                    enemy_entity: enemy_id,
                    amount: GNOME_STRENGTH,
                    position: enemy_position,
                },
            ),
            sow: None,
            spew: None,
            sound: Some(SoundRequest { sound: SoundEffect::Headbonk, position: enemy_position }),
        },
    }
}

/// The kind is a pineapple below the last generation.
pub open spec fn breeds(plant_type: PlantType) -> bool {
    plant_type matches PlantType::Pineapple(g) && g < PINEAPPLE_MAX_GENERATION
}

/// A grown pineapple below the last generation leaves exactly one offspring
/// of the next generation per bite, on the ring around it; a pineapple of the
/// last generation, any seedling and every other kind leave none.
pub proof fn lemma_pineapple_offspring(
    enemy_id: EntityId,
    enemy_position: GridPoint,
    plant: PlantEntity,
    roll: u32,
)
    ensures
        ({
            let response = spec_bite_response(enemy_id, enemy_position, plant, roll);
            &&& seq_of(response.sow).len() <= 1
            &&& response.sow.is_some() <==> (plant.mature() && breeds(plant.plant.plant_type))
            &&& plant.plant.plant_type matches PlantType::Pineapple(g) ==> (if plant.mature() && g
                < PINEAPPLE_MAX_GENERATION {
                response.sow == Some(
                    SowPlantEvent {
                        position: spread_position(plant.position, roll),
                        seed_type: PlantType::Pineapple((g + 1) as i32),
                    },
                )
            } else {
                response.sow.is_none()
            })
        }),
{
}

/// An offspring that no edge of the grid cuts off lies exactly the spread
/// distance from its parent.
pub proof fn lemma_offspring_on_ring(position: GridPoint, roll: u32)
    requires
        i32::MIN + PINEAPPLE_SPREAD_DISTANCE <= position.x <= i32::MAX - PINEAPPLE_SPREAD_DISTANCE,
        i32::MIN + PINEAPPLE_SPREAD_DISTANCE <= position.y <= i32::MAX - PINEAPPLE_SPREAD_DISTANCE,
    ensures
        distance_squared(position, spread_position(position, roll)) == PINEAPPLE_SPREAD_DISTANCE
            * PINEAPPLE_SPREAD_DISTANCE,
{
    lemma_ring_places_on_ring(roll);
    let o = spec_ring_offset(roll);
    let q = spread_position(position, roll);
    assert(q.x == position.x + o.0);
    assert(q.y == position.y + o.1);
    assert((position.x - q.x) * (position.x - q.x) == o.0 * o.0) by (nonlinear_arith)
        requires
            q.x == position.x + o.0,
    ;
    assert((position.y - q.y) * (position.y - q.y) == o.1 * o.1) by (nonlinear_arith)
        requires
            q.y == position.y + o.1,
    ;
}

/// What one rat does in one tick.
#[derive(Clone, Copy, Debug, PartialEq, Eq, Structural)]
pub struct EnemyStep {
    /// The rat strayed too far from the player and leaves the world.
    pub despawned: bool,
    /// The rat after the tick.
    pub enemy: EnemyEntity,
    /// The bite, if the rat bit.
    pub damage_plant: Option<DamagePlantEvent>,
    /// The answer of the bitten plant.
    pub response: BiteResponse,
    pub bite_sound: Option<SoundRequest>,
}

/// A step in which nothing happens to `enemy` and nothing is asked for.
pub open spec fn idle_step(enemy: EnemyEntity) -> EnemyStep {
    EnemyStep {
        despawned: false,
        enemy,
        damage_plant: None,
        response: BiteResponse { damage_enemy: None, sow: None, spew: None, sound: None },
        bite_sound: None,
    }
}

/// The rat is farther from the player than a rat may stray. Without a
/// player no rat is.
pub open spec fn strayed(enemy: EnemyEntity, player: Option<GridPoint>) -> bool {
    match player {
        Some(p) => distance_squared(enemy.position, p) > ENEMY_DESPAWN_DISTANCE
            * ENEMY_DESPAWN_DISTANCE,
        None => false,
    }
}

/// What `enemy` does in one tick.
///
/// A rat that strayed leaves. With no plant in the world a rat walks straight
/// up. Otherwise it turns to the nearest plant: out of biting range it walks
/// towards it; in range it bites, unless it is cooling down, and is answered
/// by the plant.
pub open spec fn spec_enemy_step(
    enemy: EnemyEntity,
    plants: Seq<PlantEntity>,
    player: Option<GridPoint>,
    roll: u32,
) -> EnemyStep {
    if strayed(enemy, player) {
        EnemyStep { despawned: true, ..idle_step(enemy) }
    } else if plants.len() == 0 {
        idle_step(EnemyEntity { motion: Motion::Along { dx: 0, dy: ENEMY_MOVE_SPEED as i32 }, ..enemy })
    } else {
        let target = plants[nearest_index(enemy.position, plants)];
        if !strictly_within(enemy.position, target.position, EAT_RADIUS_PX as int) {
            idle_step(
                EnemyEntity {
                    motion: Motion::Toward { target: target.position, speed: ENEMY_MOVE_SPEED },
                    ..enemy
                },
            )
        } else if enemy.bite_cooldown.is_some() {
            idle_step(enemy)
        } else {
            EnemyStep {
                despawned: false,
                enemy: EnemyEntity {
                    bite_cooldown: Some(BiteCooldown(fresh_timer(BITE_COOLDOWN, TimerMode::Once))),
                    ..enemy
                },
                damage_plant: Some(
                    DamagePlantEvent { plant_entity: target.id, amount: BITE_STRENGTH },
                ),
                response: spec_bite_response(enemy.id, enemy.position, target, roll),
                bite_sound: Some(
                    SoundRequest { sound: SoundEffect::Bite, position: enemy.position },
                ),
            }
        }
    }
}

/// What `enemy` does in one tick; `roll` picks the place of a pineapple's
/// offspring, should the rat bite one.
pub fn pursue_step(
    enemy: &EnemyEntity,
    plants: &Vec<PlantEntity>,
    player: Option<GridPoint>,
    roll: u32,
) -> (step: EnemyStep)
    ensures
        step == spec_enemy_step(*enemy, plants@, player, roll),
{
    let nothing = BiteResponse { damage_enemy: None, sow: None, spew: None, sound: None };
    let idle = EnemyStep {
        despawned: false,
        enemy: *enemy,
        damage_plant: None,
        response: nothing,
        bite_sound: None,
    };
    if let Some(p) = player {
        if !enemy.position.is_within_reach(&p, ENEMY_DESPAWN_DISTANCE) {
            return EnemyStep { despawned: true, ..idle };
        }
    }
    match nearest_plant(enemy.position, plants) {
        None => {
            let mut moved = *enemy;
            moved.motion = Motion::Along { dx: 0, dy: ENEMY_MOVE_SPEED as i32 };
            EnemyStep { enemy: moved, ..idle }
        },
        Some(index) => {
            let target = plants[index];
            if !enemy.position.is_strictly_within(&target.position, EAT_RADIUS_PX) {
                let mut moved = *enemy;
                moved.motion = Motion::Toward { target: target.position, speed: ENEMY_MOVE_SPEED };
                EnemyStep { enemy: moved, ..idle }
            } else if enemy.bite_cooldown.is_some() {
                idle
            } else {
                let mut bitten = *enemy;
                bitten.bite_cooldown = Some(BiteCooldown(Timer::new(BITE_COOLDOWN, TimerMode::Once)));
                EnemyStep {
                    despawned: false,
                    enemy: bitten,
                    damage_plant: Some(
                        DamagePlantEvent { plant_entity: target.id, amount: BITE_STRENGTH },
                    ),
                    response: bite_response(enemy.id, enemy.position, &target, roll),
                    bite_sound: Some(
                        SoundRequest { sound: SoundEffect::Bite, position: enemy.position },
                    ),
                }
            }
        },
    }
}

/// A rat that is cooling down bites nothing, whatever stands next to it.
pub proof fn lemma_cooldown_blocks_bite(
    enemy: EnemyEntity,
    plants: Seq<PlantEntity>,
    player: Option<GridPoint>,
    roll: u32,
)
    requires
        enemy.bite_cooldown.is_some(),
    ensures
        spec_enemy_step(enemy, plants, player, roll).damage_plant.is_none(),
        spec_enemy_step(enemy, plants, player, roll).response == (BiteResponse {
            damage_enemy: None,
            sow: None,
            spew: None,
            sound: None,
        }),
        spec_enemy_step(enemy, plants, player, roll).enemy.bite_cooldown == enemy.bite_cooldown,
{
}

/// What all rats did in one tick, as mathematical sequences.
pub struct PursuitView {
    /// The rats that stay, after the tick.
    pub enemies: Seq<EnemyEntity>,
    pub despawned: Seq<EntityId>,
    pub damage_plant_events: Seq<DamagePlantEvent>,
    pub damage_enemy_events: Seq<DamageEnemyEvent>,
    pub sow_events: Seq<SowPlantEvent>,
    pub spew_events: Seq<SpewFireEvent>,
    pub sounds: Seq<SoundRequest>,
}

/// What the first `count` rats of `enemies` do in one tick, rat by rat in the
/// order of the collection. The rat at index `i` uses the roll at index `i`.
pub open spec fn spec_pursuit(
    enemies: Seq<EnemyEntity>,
    plants: Seq<PlantEntity>,
    player: Option<GridPoint>,
    rolls: Seq<u32>,
    count: nat,
) -> PursuitView
    decreases count,
{
    if count == 0 {
        PursuitView {
            enemies: Seq::empty(),
            despawned: Seq::empty(),
            damage_plant_events: Seq::empty(),
            damage_enemy_events: Seq::empty(),
            sow_events: Seq::empty(),
            spew_events: Seq::empty(),
            sounds: Seq::empty(),
        }
    } else {
        let before = spec_pursuit(enemies, plants, player, rolls, (count - 1) as nat);
        let step = spec_enemy_step(
            enemies[count - 1],
            plants,
            player,
            roll_at(rolls, count - 1),
        );
        PursuitView {
            enemies: if step.despawned {
                before.enemies
            } else {
                before.enemies.push(step.enemy)
            },
            despawned: if step.despawned {
                before.despawned.push(step.enemy.id)
            } else {
                before.despawned
            },
            damage_plant_events: before.damage_plant_events + seq_of(step.damage_plant),
            damage_enemy_events: before.damage_enemy_events + seq_of(step.response.damage_enemy),
            sow_events: before.sow_events + seq_of(step.response.sow),
            spew_events: before.spew_events + seq_of(step.response.spew),
            sounds: before.sounds + seq_of(step.response.sound) + seq_of(step.bite_sound),
        }
    }
}

/// What all rats did in one tick: who left, and what was asked for.
#[derive(Debug)]
pub struct Pursuit {
    /// The rats that strayed and were taken out of the world.
    pub despawned: Vec<EntityId>,
    pub damage_plant_events: Vec<DamagePlantEvent>,
    pub damage_enemy_events: Vec<DamageEnemyEvent>,
    pub sow_events: Vec<SowPlantEvent>,
    pub spew_events: Vec<SpewFireEvent>,
    pub sounds: Vec<SoundRequest>,
}

impl Pursuit {
    /// The outcome, together with the rats that stay, is what `view` says.
    pub open spec fn agrees_with(self, enemies: Seq<EnemyEntity>, view: PursuitView) -> bool {
        &&& enemies == view.enemies
        &&& self.despawned@ == view.despawned
        &&& self.damage_plant_events@ == view.damage_plant_events
        &&& self.damage_enemy_events@ == view.damage_enemy_events
        &&& self.sow_events@ == view.sow_events
        &&& self.spew_events@ == view.spew_events
        &&& self.sounds@ == view.sounds
    }
}

/// Lets every rat take its step, with the given rolls: the rat at index `i`
/// uses the roll at index `i`, or 0 where the rolls run out. Rats that
/// strayed are removed; the others stay in their order.
pub fn pursue_plants_with(
    enemies: &mut Vec<EnemyEntity>,
    plants: &Vec<PlantEntity>,
    player: Option<GridPoint>,
    rolls: &Vec<u32>,
) -> (outcome: Pursuit)
    ensures
        outcome.agrees_with(
            final(enemies)@,
            spec_pursuit(old(enemies)@, plants@, player, rolls@, old(enemies)@.len()),
        ),
{
    let mut kept: Vec<EnemyEntity> = Vec::new();
    let mut outcome = Pursuit {
        despawned: Vec::new(),
        damage_plant_events: Vec::new(),
        damage_enemy_events: Vec::new(),
        sow_events: Vec::new(),
        spew_events: Vec::new(),
        sounds: Vec::new(),
    };
    let mut i: usize = 0;
    while i < enemies.len()
        invariant
            i <= enemies@.len(),
            enemies@ == old(enemies)@,
            outcome.agrees_with(kept@, spec_pursuit(enemies@, plants@, player, rolls@, i as nat)),
        decreases enemies@.len() - i,
    {
        let step = pursue_step(&enemies[i], plants, player, roll_for(rolls, i));
        if step.despawned {
            outcome.despawned.push(step.enemy.id);
        } else {
            kept.push(step.enemy);
        }
        push_some(&mut outcome.damage_plant_events, step.damage_plant);
        push_some(&mut outcome.damage_enemy_events, step.response.damage_enemy);
        push_some(&mut outcome.sow_events, step.response.sow);
        push_some(&mut outcome.spew_events, step.response.spew);
        push_some(&mut outcome.sounds, step.response.sound);
        push_some(&mut outcome.sounds, step.bite_sound);
        i += 1;
    }
    *enemies = kept;
    outcome
}

/// The rolls are as many as asked for and each names a place on the ring.
pub open spec fn ring_rolls(rolls: Seq<u32>, count: nat) -> bool {
    &&& rolls.len() == count
    &&& forall|i: int| 0 <= i < count ==> (#[trigger] rolls[i]) < RING_PLACES
}

/// Lets every rat take its step. The places of pineapple offspring are drawn
/// at random, one roll per rat: the outcome is that of
/// [`pursue_plants_with`] for some rolls on the ring.
pub fn pursue_plants(
    enemies: &mut Vec<EnemyEntity>,
    plants: &Vec<PlantEntity>,
    player: Option<GridPoint>,
) -> (outcome: Pursuit)
    ensures
        exists|rolls: Seq<u32>|
            ring_rolls(rolls, old(enemies)@.len()) && #[trigger] outcome.agrees_with(
                final(enemies)@,
                spec_pursuit(old(enemies)@, plants@, player, rolls, old(enemies)@.len()),
            ),
{
    let rolls = draw_rolls(enemies.len(), RING_PLACES);
    let outcome = pursue_plants_with(enemies, plants, player, &rolls);
    proof {
        assert(ring_rolls(rolls@, old(enemies)@.len()));
        assert(outcome.agrees_with(
            enemies@,
            spec_pursuit(old(enemies)@, plants@, player, rolls@, old(enemies)@.len()),
        ));
    }
    outcome
}

/// The rat after `delta` more microseconds of cooling down: the cooldown
/// runs on, and is taken off once its time is up.
pub open spec fn cooled(enemy: EnemyEntity, delta: u64) -> EnemyEntity {
    match enemy.bite_cooldown {
        None => enemy,
        Some(cooldown) => {
            let timer = cooldown.0.after_tick(delta);
            if timer.finished {
                EnemyEntity { bite_cooldown: None, ..enemy }
            } else {
                EnemyEntity { bite_cooldown: Some(BiteCooldown(timer)), ..enemy }
            }
        },
    }
}

/// The rats after `delta` more microseconds of cooling down.
pub open spec fn cooled_all(enemies: Seq<EnemyEntity>, delta: u64) -> Seq<EnemyEntity> {
    Seq::new(enemies.len(), |i: int| cooled(enemies[i], delta))
}

/// Advances the cooldown of every rat that has one, and frees the rats whose
/// cooldown is over.
pub fn tick_bite_cooldowns(enemies: &mut Vec<EnemyEntity>, delta: u64)
    ensures
        final(enemies)@ == cooled_all(old(enemies)@, delta),
{
    let mut i: usize = 0;
    while i < enemies.len()
        invariant
            i <= enemies@.len(),
            enemies@.len() == old(enemies)@.len(),
            forall|j: int| 0 <= j < i ==> (#[trigger] enemies@[j]) == cooled(old(enemies)@[j], delta),
            forall|j: int| i <= j < enemies@.len() ==> (#[trigger] enemies@[j]) == old(enemies)@[j],
        decreases enemies@.len() - i,
    {
        let mut e = enemies[i];
        if let Some(cooldown) = e.bite_cooldown {
            let mut timer = cooldown.0;
            timer.tick(delta);
            if timer.finished() {
                e.bite_cooldown = None;
            } else {
                e.bite_cooldown = Some(BiteCooldown(timer));
            }
            enemies.set(i, e);
        }
        i += 1;
    }
    proof {
        assert(enemies@ =~= cooled_all(old(enemies)@, delta));
    }
}

/// The health left after the first `count` of `events`, of which those aimed
/// at `id` were applied in order.
pub open spec fn health_after_enemy_hits(
    health: Health,
    id: EntityId,
    events: Seq<DamageEnemyEvent>,
    count: nat,
) -> Health
    decreases count,
{
    if count == 0 {
        health
    } else {
        let before = health_after_enemy_hits(health, id, events, (count - 1) as nat);
        if events[count - 1].enemy_entity == id {
            before.after_hit(events[count - 1].amount)
        } else {
            before
        }
    }
}

/// Some rat carries the identifier `id`.
pub open spec fn has_enemy(enemies: Seq<EnemyEntity>, id: EntityId) -> bool {
    exists|i: int| 0 <= i < enemies.len() && (#[trigger] enemies[i]).id == id
}

/// The places at which a blow shows: one for each of the first `count`
/// events that is aimed at a rat of the world, in the order of the events.
pub open spec fn blow_positions(
    enemies: Seq<EnemyEntity>,
    events: Seq<DamageEnemyEvent>,
    count: nat,
) -> Seq<GridPoint>
    decreases count,
{
    if count == 0 {
        Seq::empty()
    } else {
        let before = blow_positions(enemies, events, (count - 1) as nat);
        if has_enemy(enemies, events[count - 1].enemy_entity) {
            before.push(events[count - 1].position)
        } else {
            before
        }
    }
}

/// The rats after all of `events` were applied: each rat took, in order,
/// the hits aimed at it.
pub open spec fn hit_enemies(enemies: Seq<EnemyEntity>, events: Seq<DamageEnemyEvent>) -> Seq<
    EnemyEntity,
> {
    Seq::new(
        enemies.len(),
        |i: int|
            EnemyEntity {
                health: health_after_enemy_hits(
                    enemies[i].health,
                    enemies[i].id,
                    events,
                    events.len(),
                ),
                ..enemies[i]
            },
    )
}

/// Whether some rat carries the identifier `id`.
pub fn find_enemy(enemies: &Vec<EnemyEntity>, id: EntityId) -> (found: Option<usize>)
    ensures
        found.is_some() == has_enemy(enemies@, id),
        found matches Some(index) ==> index < enemies@.len() && enemies@[index as int].id == id
            && forall|j: int| 0 <= j < index ==> (#[trigger] enemies@[j]).id != id,
{
    let mut i: usize = 0;
    while i < enemies.len()
        invariant
            i <= enemies@.len(),
            forall|j: int| 0 <= j < i ==> (#[trigger] enemies@[j]).id != id,
        decreases enemies@.len() - i,
    {
        if enemies[i].id == id {
            return Some(i);
        }
        i += 1;
    }
    None
}

/// Applies the damage events to the rats they are aimed at, event by event.
/// Returns the places at which a star is to show: the position of each event
/// that hit a rat.
pub fn damage_enemies(enemies: &mut Vec<EnemyEntity>, events: &Vec<DamageEnemyEvent>) -> (blows: Vec<
    GridPoint,
>)
    ensures
        final(enemies)@ == hit_enemies(old(enemies)@, events@),
        blows@ == blow_positions(old(enemies)@, events@, events@.len()),
{
    let mut blows: Vec<GridPoint> = Vec::new();
    let mut k: usize = 0;
    while k < events.len()
        invariant
            k <= events@.len(),
            enemies@.len() == old(enemies)@.len(),
            forall|i: int|
                0 <= i < enemies@.len() ==> (#[trigger] enemies@[i]) == (EnemyEntity {
                    health: health_after_enemy_hits(
                        old(enemies)@[i].health,
                        old(enemies)@[i].id,
                        events@,
                        k as nat,
                    ),
                    ..old(enemies)@[i]
                }),
            blows@ == blow_positions(old(enemies)@, events@, k as nat),
        decreases events@.len() - k,
    {
        let ev = events[k];
        let ghost before = enemies@;
        proof {
            if has_enemy(old(enemies)@, ev.enemy_entity) {
                let w = choose|i: int|
                    0 <= i < old(enemies)@.len() && (#[trigger] old(enemies)@[i]).id
                        == ev.enemy_entity;
                assert(enemies@[w].id == ev.enemy_entity);
            }
            if has_enemy(enemies@, ev.enemy_entity) {
                let w = choose|i: int|
                    0 <= i < enemies@.len() && (#[trigger] enemies@[i]).id == ev.enemy_entity;
                assert(old(enemies)@[w].id == ev.enemy_entity);
            }
        }
        if find_enemy(enemies, ev.enemy_entity).is_some() {
            blows.push(ev.position);
        }
        let mut i: usize = 0;
        while i < enemies.len()
            invariant
                i <= enemies@.len(),
                k < events@.len(),
                ev == events@[k as int],
                enemies@.len() == old(enemies)@.len(),
                forall|j: int|
                    0 <= j < i ==> (#[trigger] enemies@[j]) == (EnemyEntity {
                        health: health_after_enemy_hits(
                            old(enemies)@[j].health,
                            old(enemies)@[j].id,
                            events@,
                            (k + 1) as nat,
                        ),
                        ..old(enemies)@[j]
                    }),
                forall|j: int|
                    i <= j < enemies@.len() ==> (#[trigger] enemies@[j]) == (EnemyEntity {
                        health: health_after_enemy_hits(
                            old(enemies)@[j].health,
                            old(enemies)@[j].id,
                            events@,
                            k as nat,
                        ),
                        ..old(enemies)@[j]
                    }),
            decreases enemies@.len() - i,
        {
            let mut e = enemies[i];
            if e.id == ev.enemy_entity {
                e.health.reduce(ev.amount);
                enemies.set(i, e);
            }
            i += 1;
        }
        k += 1;
    }
    proof {
        assert(enemies@ =~= hit_enemies(old(enemies)@, events@));
    }
    blows
}

/// Where rats enter the world.
#[derive(Clone, Copy, Debug, PartialEq, Eq, Structural)]
pub struct EnemySpawner {
    /// Height of the stretch along which the rats appear, centred on the
    /// spawner.
    pub spawn_height: u32,
}

/// Runs between two rats of one spawner.
#[derive(Clone, Copy, Debug, PartialEq, Eq, Structural)]
pub struct SpawnTimer(pub Timer);

/// A spawner in the world.
#[derive(Clone, Copy, Debug, PartialEq, Eq, Structural)]
pub struct SpawnerEntity {
    pub position: GridPoint,
    pub spawner: EnemySpawner,
    pub timer: SpawnTimer,
}

/// A spawner at `position` that lets a rat in once per spawn interval.
pub fn enemy_spawner(position: GridPoint, spawn_height: u32) -> (s: SpawnerEntity)
    ensures
        s == (SpawnerEntity {
            position,
            spawner: EnemySpawner { spawn_height },
            timer: SpawnTimer(fresh_timer(SPAWN_INTERVAL, TimerMode::Repeating)),
        }),
{
    SpawnerEntity {
        position,
        spawner: EnemySpawner { spawn_height },
        timer: SpawnTimer(Timer::new(SPAWN_INTERVAL, TimerMode::Repeating)),
    }
}

/// Some plant is a daisy, grown or not.
pub open spec fn has_daisy(plants: Seq<PlantEntity>) -> bool {
    exists|i: int| 0 <= i < plants.len() && (#[trigger] plants[i]).plant.plant_type == PlantType::Daisy
}

/// Whether some plant is a daisy, grown or not.
pub fn any_daisy(plants: &Vec<PlantEntity>) -> (found: bool)
    ensures
        found == has_daisy(plants@),
{
    let mut i: usize = 0;
    while i < plants.len()
        invariant
            i <= plants@.len(),
            forall|j: int| 0 <= j < i ==> (#[trigger] plants@[j]).plant.plant_type != PlantType::Daisy,
        decreases plants@.len() - i,
    {
        if plants[i].plant.plant_type == PlantType::Daisy {
            return true;
        }
        i += 1;
    }
    false
}

/// How far above the spawner a rat appears for a roll: the rolls spread the
/// rats evenly over the spawn height, centred on the spawner.
pub open spec fn spawn_jitter(spawn_height: u32, roll: u32) -> int {
    if spawn_height == 0 {
        0
    } else {
        (roll % spawn_height) - spawn_height / 2
    }
}

/// Where a rat of `spawner` appears for a roll.
pub open spec fn spawn_position(spawner: SpawnerEntity, roll: u32) -> GridPoint {
    GridPoint {
        x: spawner.position.x,
        y: clamp_coordinate(spawner.position.y + spawn_jitter(spawner.spawner.spawn_height, roll)) as i32,
    }
}

/// Where a rat of `spawner` appears for a roll.
pub fn spawn_point(spawner: &SpawnerEntity, roll: u32) -> (p: GridPoint)
    ensures
        p == spawn_position(*spawner, roll),
{
    let h = spawner.spawner.spawn_height;
    let jitter: i64 = if h == 0 {
        0
    } else {
        (roll % h) as i64 - (h / 2) as i64
    };
    let y: i64 = spawner.position.y as i64 + jitter;
    let y: i32 = if y < i32::MIN as i64 {
        i32::MIN
    } else if y > i32::MAX as i64 {
        i32::MAX
    } else {
        y as i32
    };
    GridPoint { x: spawner.position.x, y }
}

/// The spawner lets a rat in during this tick: its timer ran out, fewer
/// rats than the limit are alive, and there is a daisy to go for.
pub open spec fn spawns_now(
    spawner: SpawnerEntity,
    delta: u64,
    alive: nat,
    plants: Seq<PlantEntity>,
) -> bool {
    &&& spawner.timer.0.after_tick(delta).times_finished_this_tick > 0
    &&& alive < ENEMY_SPAWN_LIMIT
    &&& has_daisy(plants)
}

/// The rats of the world and the next free identifier after the first
/// `count` spawners had their turn, spawner by spawner. A rat that one
/// spawner let in counts as alive for the next.
pub open spec fn spec_spawned(
    spawners: Seq<SpawnerEntity>,
    enemies: Seq<EnemyEntity>,
    plants: Seq<PlantEntity>,
    next: u64,
    delta: u64,
    rolls: Seq<u32>,
    count: nat,
) -> (Seq<EnemyEntity>, u64)
    decreases count,
{
    if count == 0 {
        (enemies, next)
    } else {
        let before = spec_spawned(spawners, enemies, plants, next, delta, rolls, (count - 1) as nat);
        if spawns_now(spawners[count - 1], delta, before.0.len(), plants) {
            (
                before.0.push(
                    fresh_enemy(
                        EntityId(before.1),
                        spawn_position(spawners[count - 1], roll_at(rolls, count - 1)),
                    ),
                ),
                next_counter(before.1),
            )
        } else {
            before
        }
    }
}

/// The spawner after `delta` more microseconds.
pub open spec fn spawner_after_tick(spawner: SpawnerEntity, delta: u64) -> SpawnerEntity {
    SpawnerEntity { timer: SpawnTimer(spawner.timer.0.after_tick(delta)), ..spawner }
}

/// The spawners after `delta` more microseconds.
pub open spec fn ticked_spawners(spawners: Seq<SpawnerEntity>, delta: u64) -> Seq<SpawnerEntity> {
    Seq::new(spawners.len(), |i: int| spawner_after_tick(spawners[i], delta))
}

/// Advances every spawner by `delta` and lets the rats in, with the given
/// rolls: the spawner at index `i` uses the roll at index `i`, or 0 where
/// the rolls run out.
pub fn tick_spawn_with(
    spawners: &mut Vec<SpawnerEntity>,
    enemies: &mut Vec<EnemyEntity>,
    plants: &Vec<PlantEntity>,
    ids: &mut IdSource,
    delta: u64,
    rolls: &Vec<u32>,
)
    ensures
        final(spawners)@ == ticked_spawners(old(spawners)@, delta),
        (final(enemies)@, final(ids).next) == spec_spawned(
            old(spawners)@,
            old(enemies)@,
            plants@,
            old(ids).next,
            delta,
            rolls@,
            old(spawners)@.len(),
        ),
{
    let daisies = any_daisy(plants);
    let mut i: usize = 0;
    while i < spawners.len()
        invariant
            i <= spawners@.len(),
            daisies == has_daisy(plants@),
            spawners@.len() == old(spawners)@.len(),
            forall|j: int|
                0 <= j < i ==> (#[trigger] spawners@[j]) == spawner_after_tick(
                    old(spawners)@[j],
                    delta,
                ),
            forall|j: int| i <= j < spawners@.len() ==> (#[trigger] spawners@[j]) == old(spawners)@[j],
            (enemies@, ids.next) == spec_spawned(
                old(spawners)@,
                old(enemies)@,
                plants@,
                old(ids).next,
                delta,
                rolls@,
                i as nat,
            ),
        decreases spawners@.len() - i,
    {
        let mut s = spawners[i];
        let mut timer = s.timer.0;
        timer.tick(delta);
        s.timer = SpawnTimer(timer);
        if timer.just_finished() && enemies.len() < ENEMY_SPAWN_LIMIT && daisies {
            let at = spawn_point(&spawners[i], roll_for(rolls, i));
            let id = ids.allocate();
            enemies.push(enemy(id, at));
        }
        spawners.set(i, s);
        i += 1;
    }
    proof {
        assert(spawners@ =~= ticked_spawners(old(spawners)@, delta));
    }
}

/// The rolls are as many as the spawners, and each lies within the spawn
/// height of its spawner.
pub open spec fn spawn_rolls(rolls: Seq<u32>, spawners: Seq<SpawnerEntity>) -> bool {
    &&& rolls.len() == spawners.len()
    &&& forall|i: int|
        0 <= i < spawners.len() ==> (#[trigger] rolls[i]) <= spawners[i].spawner.spawn_height
}

/// Advances every spawner by `delta` and lets the rats in. Where along its
/// height a spawner lets a rat in is drawn at random: the outcome is that of
/// [`tick_spawn_with`] for some rolls within the spawn heights.
pub fn tick_spawn(
    spawners: &mut Vec<SpawnerEntity>,
    enemies: &mut Vec<EnemyEntity>,
    plants: &Vec<PlantEntity>,
    ids: &mut IdSource,
    delta: u64,
)
    ensures
        final(spawners)@ == ticked_spawners(old(spawners)@, delta),
        exists|rolls: Seq<u32>|
            spawn_rolls(rolls, old(spawners)@) && (final(enemies)@, final(ids).next)
                == #[trigger] spec_spawned(
                old(spawners)@,
                old(enemies)@,
                plants@,
                old(ids).next,
                delta,
                rolls,
                old(spawners)@.len(),
            ),
{
    let mut rolls: Vec<u32> = Vec::new();
    let mut i: usize = 0;
    while i < spawners.len()
        invariant
            i <= spawners@.len(),
            spawners@ == old(spawners)@,
            rolls@.len() == i,
            forall|j: int| 0 <= j < i ==> (#[trigger] rolls@[j]) <= spawners@[j].spawner.spawn_height,
        decreases spawners@.len() - i,
    {
        let r = crate::random::roll_below(spawners[i].spawner.spawn_height);
        rolls.push(r);
        i += 1;
    }
    tick_spawn_with(spawners, enemies, plants, ids, delta, &rolls);
    proof {
        assert(spawn_rolls(rolls@, old(spawners)@));
    }
}

/// Spawners never push the number of rats past the limit: if it was at or
/// below the limit before, it still is after, and no rat leaves.
pub proof fn lemma_spawn_respects_limit(
    spawners: Seq<SpawnerEntity>,
    enemies: Seq<EnemyEntity>,
    plants: Seq<PlantEntity>,
    next: u64,
    delta: u64,
    rolls: Seq<u32>,
    count: nat,
)
    ensures
        ({
            let after = spec_spawned(spawners, enemies, plants, next, delta, rolls, count).0;
            &&& after.len() >= enemies.len()
            &&& after.subrange(0, enemies.len() as int) == enemies
            &&& enemies.len() <= ENEMY_SPAWN_LIMIT ==> after.len() <= ENEMY_SPAWN_LIMIT
            &&& enemies.len() >= ENEMY_SPAWN_LIMIT ==> after == enemies
            &&& !has_daisy(plants) ==> after == enemies
        }),
    decreases count,
{
    if count > 0 {
        lemma_spawn_respects_limit(spawners, enemies, plants, next, delta, rolls, (count - 1) as nat);
        let before = spec_spawned(spawners, enemies, plants, next, delta, rolls, (count - 1) as nat).0;
        let after = spec_spawned(spawners, enemies, plants, next, delta, rolls, count).0;
        assert(after.subrange(0, enemies.len() as int) =~= before.subrange(0, enemies.len() as int));
    } else {
        assert(enemies.subrange(0, enemies.len() as int) =~= enemies);
    }
}

} // verus!
