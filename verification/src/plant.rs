//! Plants: their kinds and statistics, the events that concern them, and
//! the fireballs a dragonfruit spews.

use vstd::prelude::*;
use crate::entity::{counter_after, EntityId, IdSource};
use crate::geometry::{clamp_coordinate, strictly_within, GridPoint};
use crate::lifespan::LifespanTimer;
use crate::sequence::{lemma_filter_next, lemma_filter_none, lemma_take_all};
use crate::sound::{SoundEffect, SoundRequest};
use crate::health::Health;
use crate::physics::Motion;
use crate::timer::{fresh_timer, Timer, TimerMode};

verus! {

/// How far a grown gnome throws a seed on, in pixels.
pub const GNOME_THROW_RADIUS_PX: u32 = 500;

/// Time a seedling takes to grow up, in microseconds.
pub const GROWTH_TIME: u64 = 3_000_000;

/// Number of grown daisies that make a chain.
pub const DAISY_CHAIN_LENGTH: usize = 3;

/// Coins paid for one daisy chain.
pub const DAISY_CHAIN_VALUE: i64 = 10;

pub const GNOME_STRENGTH: i32 = 1;

pub const PINEAPPLE_STRENGTH: i32 = 2;

pub const DRAGONFRUIT_STRENGTH: i32 = 1;

/// Distance from a bitten pineapple at which its offspring is sown.
pub const PINEAPPLE_SPREAD_DISTANCE: i32 = 45;

pub const PINEAPPLE_DEFAULT_GENERATION: i32 = 0;

/// The last generation of pineapples; it has no offspring.
pub const PINEAPPLE_MAX_GENERATION: i32 = 2;

pub const FIREBALL_RADIUS_PX: u32 = 30;

/// Distance from the spewing plant at which a fireball starts.
pub const FIREBALL_START_OFFSET_PX: i32 = 40;

/// Time a fireball lasts, in microseconds.
pub const FIREBALL_LIFESPAN: u64 = 1_000_000;

pub const FIREBALL_MOVE_SPEED: i32 = 15;

pub const FIREBALL_DAMAGE: i32 = 2;

pub const DAISY_PRICE: i64 = 1;

pub const PINEAPPLE_PRICE: i64 = 2;

pub const DRAGONFRUIT_PRICE: i64 = 3;

pub const GNOME_PRICE: i64 = 5;

/// The kinds of plant. A pineapple carries its generation.
#[derive(Clone, Copy, Debug, PartialEq, Eq, Structural)]
pub enum PlantType {
    Daisy,
    Pineapple(i32),
    Dragonfruit,
    Gnome,
}

impl Default for PlantType {
    fn default() -> (t: PlantType)
        ensures
            t == PlantType::Daisy,
    {
        PlantType::Daisy
    }
}

impl PlantType {
    /// What a seed of this kind costs, in coins.
    pub open spec fn spec_price(self) -> int {
        match self {
            PlantType::Daisy => 1,
            PlantType::Pineapple(_) => 2,
            PlantType::Dragonfruit => 3,
            PlantType::Gnome => 5,
        }
    }

    /// What a seed of this kind costs, in coins.
    pub fn price(&self) -> (p: i64)
        ensures
            p == self.spec_price(),
    {
        match self {
            PlantType::Daisy => DAISY_PRICE,
            PlantType::Pineapple(_) => PINEAPPLE_PRICE,
            PlantType::Dragonfruit => DRAGONFRUIT_PRICE,
            PlantType::Gnome => GNOME_PRICE,
        }
    }

    /// The name of the kind, without the generation.
    pub fn name(&self) -> (s: String)
        ensures
            s@ == (match *self {
                PlantType::Daisy => "Daisy"@,
                PlantType::Pineapple(_) => "Pineapple"@,
                PlantType::Dragonfruit => "Dragonfruit"@,
                PlantType::Gnome => "Gnome"@,
            }),
    {
        match self {
            PlantType::Daisy => "Daisy".to_string(),
            PlantType::Pineapple(_) => "Pineapple".to_string(),
            PlantType::Dragonfruit => "Dragonfruit".to_string(),
            PlantType::Gnome => "Gnome".to_string(),
        }
    }
}

/// Full health of a plant of the given kind. Pineapples weaken from one
/// generation to the next; one outside the known generations has none.
pub open spec fn spec_plant_max_health(plant_type: PlantType) -> int {
    match plant_type {
        PlantType::Daisy => 2,
        PlantType::Pineapple(generation) => if generation == 0 {
            5
        } else if generation == 1 {
            3
        } else if generation == 2 {
            1
        } else {
            0
        },
        PlantType::Dragonfruit => 5,
        PlantType::Gnome => 10,
    }
}

/// Radius of the circle a plant of the given kind occupies, in pixels.
pub open spec fn spec_plant_radius(plant_type: PlantType) -> int {
    match plant_type {
        PlantType::Daisy => 30,
        PlantType::Pineapple(generation) => if generation == 0 {
            60
        } else if generation == 1 {
            45
        } else if generation == 2 {
            25
        } else {
            0
        },
        PlantType::Dragonfruit => 45,
        PlantType::Gnome => 30,
    }
}

/// Edge length of the picture of a grown plant, where the kind fixes one.
pub open spec fn spec_grown_size(plant_type: PlantType) -> Option<int> {
    match plant_type {
        PlantType::Daisy => None,
        PlantType::Pineapple(generation) => Some(
            if generation == 0 {
                64
            } else if generation == 1 {
                48
            } else if generation == 2 {
                32
            } else {
                0
            },
        ),
        PlantType::Dragonfruit => Some(64),
        PlantType::Gnome => Some(64),
    }
}

/// From one generation of pineapples to the next, up to the last, full
/// health, radius and picture all shrink, and none of them is ever
/// negative.
pub proof fn lemma_pineapples_weaken(generation: i32)
    requires
        0 <= generation < PINEAPPLE_MAX_GENERATION,
    ensures
        0 < spec_plant_max_health(PlantType::Pineapple((generation + 1) as i32))
            < spec_plant_max_health(PlantType::Pineapple(generation)),
        0 < spec_plant_radius(PlantType::Pineapple((generation + 1) as i32)) < spec_plant_radius(
            PlantType::Pineapple(generation),
        ),
        0 < spec_grown_size(PlantType::Pineapple((generation + 1) as i32)).unwrap()
            < spec_grown_size(PlantType::Pineapple(generation)).unwrap(),
{
}

pub fn plant_max_health(plant_type: PlantType) -> (h: i32)
    ensures
        h == spec_plant_max_health(plant_type),
{
    match plant_type {
        PlantType::Daisy => 2,
        PlantType::Pineapple(generation) => if generation == 0 {
            5
        } else if generation == 1 {
            3
        } else if generation == 2 {
            1
        } else {
            0
        },
        PlantType::Dragonfruit => 5,
        PlantType::Gnome => 10,
    }
}

pub fn plant_radius(plant_type: PlantType) -> (r: u32)
    ensures
        r == spec_plant_radius(plant_type),
{
    match plant_type {
        PlantType::Daisy => 30,
        PlantType::Pineapple(generation) => if generation == 0 {
            60
        } else if generation == 1 {
            45
        } else if generation == 2 {
            25
        } else {
            0
        },
        PlantType::Dragonfruit => 45,
        PlantType::Gnome => 30,
    }
}

pub fn grown_size(plant_type: PlantType) -> (s: Option<u32>)
    ensures
        s.is_some() == spec_grown_size(plant_type).is_some(),
        s matches Some(v) ==> spec_grown_size(plant_type) == Some(v as int),
{
    match plant_type {
        PlantType::Daisy => None,
        PlantType::Pineapple(generation) => Some(
            if generation == 0 {
                64
            } else if generation == 1 {
                48
            } else if generation == 2 {
                32
            } else {
                0
            },
        ),
        PlantType::Dragonfruit => Some(64),
        PlantType::Gnome => Some(64),
    }
}

/// A spot is taken by a plant when it lies strictly inside the plant's circle.
pub open spec fn plant_covers(
    plant_position: GridPoint,
    hit_position: GridPoint,
    plant_type: PlantType,
) -> bool {
    strictly_within(plant_position, hit_position, spec_plant_radius(plant_type))
}

/// Whether `hit_position` lies strictly inside the circle of a plant of the
/// given kind at `plant_position`.
pub fn plant_collision_check(
    plant_position: GridPoint,
    hit_position: GridPoint,
    plant_type: PlantType,
) -> (hit: bool)
    ensures
        hit == plant_covers(plant_position, hit_position, plant_type),
{
    plant_position.is_strictly_within(&hit_position, plant_radius(plant_type))
}

/// What makes an entity a plant.
#[derive(Clone, Copy, Debug, PartialEq, Eq, Structural)]
pub struct Plant {
    pub plant_type: PlantType,
}

impl Plant {
    pub fn plant_type(&self) -> (t: PlantType)
        ensures
            t == self.plant_type,
    {
        self.plant_type
    }
}

impl Default for Plant {
    fn default() -> (p: Plant)
        ensures
            p.plant_type == PlantType::Daisy,
    {
        Plant { plant_type: PlantType::Daisy }
    }
}

/// Runs while a plant is a seedling.
#[derive(Clone, Copy, Debug, PartialEq, Eq, Structural)]
pub struct GrowthTimer(pub Timer);

/// What makes an entity a fireball. An inactive fireball has hit something
/// already and burns nothing more.
#[derive(Clone, Copy, Debug, PartialEq, Eq, Structural)]
pub struct Fireball {
    pub active: bool,
    pub spawning_entity: EntityId,
}

impl Fireball {
    pub fn deactivate(&mut self)
        ensures
            !final(self).active,
            final(self).spawning_entity == old(self).spawning_entity,
    {
        self.active = false;
    }

    pub fn is_active(&self) -> (a: bool)
        ensures
            a == self.active,
    {
        self.active
    }

    pub fn spawning_entity(&self) -> (e: EntityId)
        ensures
            e == self.spawning_entity,
    {
        self.spawning_entity
    }
}

/// The kind of seed the player throws next.
#[derive(Clone, Copy, Debug, PartialEq, Eq, Structural)]
pub struct SeedSelection {
    pub seed_type: PlantType,
}

impl SeedSelection {
    pub fn set_seed_type(&mut self, seed_type: PlantType)
        ensures
            final(self).seed_type == seed_type,
    {
        self.seed_type = seed_type;
    }

    pub fn seed_type(&self) -> (t: PlantType)
        ensures
            t == self.seed_type,
    {
        self.seed_type
    }
}

impl Default for SeedSelection {
    fn default() -> (s: SeedSelection)
        ensures
            s.seed_type == PlantType::Daisy,
    {
        SeedSelection { seed_type: PlantType::Daisy }
    }
}

/// Asks for a plant of `seed_type` to be sown at `position`.
#[derive(Clone, Copy, Debug, PartialEq, Eq, Structural)]
pub struct SowPlantEvent {
    pub position: GridPoint,
    pub seed_type: PlantType,
}

/// Asks for `amount` of health to be taken from a plant.
#[derive(Clone, Copy, Debug, PartialEq, Eq, Structural)]
pub struct DamagePlantEvent {
    pub plant_entity: EntityId,
    pub amount: i32,
}

/// Asks for fireballs to be spewed from `origin` in the name of a plant.
#[derive(Clone, Copy, Debug, PartialEq, Eq, Structural)]
pub struct SpewFireEvent {
    pub plant_entity: EntityId,
    pub origin: GridPoint,
}

/// Asks for the daisies of one chain to be sold; the coin shows at `position`.
#[derive(Clone, Debug)]
pub struct SellDaisyChainEvent {
    pub daisy_entities: Vec<EntityId>,
    pub position: GridPoint,
}

/// A plant in the world.
#[derive(Clone, Copy, Debug, PartialEq, Eq, Structural)]
pub struct PlantEntity {
    pub id: EntityId,
    pub plant: Plant,
    pub position: GridPoint,
    pub health: Health,
    /// Present while the plant is a seedling.
    pub growth: Option<GrowthTimer>,
}

impl PlantEntity {
    /// The plant has grown up.
    pub open spec fn mature(self) -> bool {
        self.growth.is_none()
    }

    /// The plant is a grown daisy.
    pub open spec fn mature_daisy(self) -> bool {
        self.mature() && self.plant.plant_type == PlantType::Daisy
    }

    /// The plant is a grown gnome.
    pub open spec fn grown_gnome(self) -> bool {
        self.mature() && self.plant.plant_type == PlantType::Gnome
    }

    pub fn is_mature(&self) -> (m: bool)
        ensures
            m == self.mature(),
    {
        self.growth.is_none()
    }
}

/// The seedling that a sown seed of the given kind starts as.
pub open spec fn seedling(id: EntityId, position: GridPoint, plant_type: PlantType) -> PlantEntity {
    PlantEntity {
        id,
        plant: Plant { plant_type },
        position,
        health: Health {
            current: spec_plant_max_health(plant_type) as i32,
            max: spec_plant_max_health(plant_type) as i32,
        },
        growth: Some(
            GrowthTimer(
                Timer {
                    duration: GROWTH_TIME,
                    elapsed: 0,
                    mode: TimerMode::Once,
                    finished: false,
                    times_finished_this_tick: 0,
                },
            ),
        ),
    }
}

/// A fresh plant: a seedling with the full health of its kind.
pub fn plant(id: EntityId, position: GridPoint, plant_type: PlantType) -> (p: PlantEntity)
    ensures
        p == seedling(id, position, plant_type),
        !p.mature(),
        p.health.wf(),
{
    PlantEntity {
        id,
        plant: Plant { plant_type },
        position,
        health: Health::new(plant_max_health(plant_type)),
        growth: Some(GrowthTimer(Timer::new(GROWTH_TIME, TimerMode::Once))),
    }
}

/// A fireball in the world.
#[derive(Clone, Copy, Debug, PartialEq, Eq, Structural)]
pub struct FireballEntity {
    pub id: EntityId,
    pub fireball: Fireball,
    /// Where the fireball started.
    pub position: GridPoint,
    pub motion: Motion,
    pub lifespan: LifespanTimer,
}

/// The four ways a fireball can fly.
#[derive(Clone, Copy, Debug, PartialEq, Eq, Structural)]
pub enum Cardinal {
    East,
    West,
    North,
    South,
}

impl Cardinal {
    /// The step of length one in this direction.
    pub open spec fn unit(self) -> (int, int) {
        match self {
            Cardinal::East => (1, 0),
            Cardinal::West => (-1, 0),
            Cardinal::North => (0, 1),
            Cardinal::South => (0, -1),
        }
    }

    /// The direction with the given number: east, west, north, south.
    pub open spec fn spec_nth(n: int) -> Cardinal {
        if n == 0 {
            Cardinal::East
        } else if n == 1 {
            Cardinal::West
        } else if n == 2 {
            Cardinal::North
        } else {
            Cardinal::South
        }
    }

    /// The direction with the given number: east, west, north, south.
    pub fn nth(n: usize) -> (c: Cardinal)
        ensures
            c == Cardinal::spec_nth(n as int),
    {
        if n == 0 {
            Cardinal::East
        } else if n == 1 {
            Cardinal::West
        } else if n == 2 {
            Cardinal::North
        } else {
            Cardinal::South
        }
    }
}

/// The fireball that a plant spews from `origin` in `direction`: it starts
/// a little off the plant and flies straight on, active, for a fixed time.
pub open spec fn fresh_fireball(
    id: EntityId,
    spawning_entity: EntityId,
    origin: GridPoint,
    direction: Cardinal,
) -> FireballEntity {
    FireballEntity {
        id,
        fireball: Fireball { active: true, spawning_entity },
        position: GridPoint {
            x: clamp_coordinate(origin.x + FIREBALL_START_OFFSET_PX * direction.unit().0) as i32,
            y: clamp_coordinate(origin.y + FIREBALL_START_OFFSET_PX * direction.unit().1) as i32,
        },
        motion: Motion::Along {
            dx: (FIREBALL_MOVE_SPEED * direction.unit().0) as i32,
            dy: (FIREBALL_MOVE_SPEED * direction.unit().1) as i32,
        },
        lifespan: LifespanTimer(fresh_timer(FIREBALL_LIFESPAN, TimerMode::Once)),
    }
}

/// A fresh fireball, spewed from `origin` in `direction`.
pub fn fireball(
    id: EntityId,
    spawning_entity: EntityId,
    origin: GridPoint,
    direction: Cardinal,
) -> (f: FireballEntity)
    ensures
        f == fresh_fireball(id, spawning_entity, origin, direction),
{
    let (ux, uy): (i32, i32) = match direction {
        Cardinal::East => (1, 0),
        Cardinal::West => (-1, 0),
        Cardinal::North => (0, 1),
        Cardinal::South => (0, -1),
    };
    FireballEntity {
        id,
        fireball: Fireball { active: true, spawning_entity },
        position: origin.translated(FIREBALL_START_OFFSET_PX * ux, FIREBALL_START_OFFSET_PX * uy),
        motion: Motion::Along { dx: FIREBALL_MOVE_SPEED * ux, dy: FIREBALL_MOVE_SPEED * uy },
        lifespan: LifespanTimer::new(FIREBALL_LIFESPAN),
    }
}

/// The seedlings that the sow events ask for, with identifiers counted on
/// from `next`.
pub open spec fn sown_plants(events: Seq<SowPlantEvent>, next: u64) -> Seq<PlantEntity> {
    Seq::new(
        events.len(),
        |k: int|
            seedling(EntityId(counter_after(next, k as nat)), events[k].position, events[k].seed_type),
    )
}

/// The sounds of sowing: one at the place of each event.
pub open spec fn sow_sounds(events: Seq<SowPlantEvent>) -> Seq<SoundRequest> {
    Seq::new(
        events.len(),
        |k: int| SoundRequest { sound: SoundEffect::Sow, position: events[k].position },
    )
}

/// Sows a seedling for each event, in order, after the plants that are
/// there. Returns the sounds of sowing.
pub fn sow_plants(plants: &mut Vec<PlantEntity>, ids: &mut IdSource, events: &Vec<SowPlantEvent>) -> (sounds:
    Vec<SoundRequest>)
    ensures
        final(plants)@ == old(plants)@ + sown_plants(events@, old(ids).next),
        final(ids).next == counter_after(old(ids).next, events@.len()),
        sounds@ == sow_sounds(events@),
{
    let mut sounds: Vec<SoundRequest> = Vec::new();
    let mut i: usize = 0;
    proof {
        assert(plants@ =~= old(plants)@ + sown_plants(events@.take(0), old(ids).next));
        assert(sounds@ =~= sow_sounds(events@.take(0)));
    }
    while i < events.len()
        invariant
            i <= events@.len(),
            plants@ == old(plants)@ + sown_plants(events@.take(i as int), old(ids).next),
            ids.next == counter_after(old(ids).next, i as nat),
            sounds@ == sow_sounds(events@.take(i as int)),
        decreases events@.len() - i,
    {
        let ev = events[i];
        let id = ids.allocate();
        plants.push(plant(id, ev.position, ev.seed_type));
        sounds.push(SoundRequest { sound: SoundEffect::Sow, position: ev.position });
        proof {
            assert(plants@ =~= old(plants)@ + sown_plants(events@.take(i + 1), old(ids).next));
            assert(sounds@ =~= sow_sounds(events@.take(i + 1)));
        }
        i += 1;
    }
    proof {
        lemma_take_all(events@);
    }
    sounds
}

/// The plant after `delta` more microseconds of growing: a seedling whose
/// time is up is grown, and any other plant is left as it is.
pub open spec fn after_growth(plant: PlantEntity, delta: u64) -> PlantEntity {
    match plant.growth {
        None => plant,
        Some(growth) => {
            let timer = growth.0.after_tick(delta);
            if timer.finished {
                PlantEntity { growth: None, ..plant }
            } else {
                PlantEntity { growth: Some(GrowthTimer(timer)), ..plant }
            }
        },
    }
}

/// The plant is a seedling that grows up within `delta` microseconds.
pub open spec fn finishes_growing(plant: PlantEntity, delta: u64) -> bool {
    plant.growth matches Some(growth) && growth.0.after_tick(delta).finished
}

/// Tells the seedlings that grow up within `delta` from the other plants.
pub open spec fn finishes_growing_pred(delta: u64) -> spec_fn(PlantEntity) -> bool {
    |p: PlantEntity| finishes_growing(p, delta)
}

/// Takes a plant to what it is after `delta` more microseconds of growing.
pub open spec fn after_growth_fn(delta: u64) -> spec_fn(PlantEntity) -> PlantEntity {
    |p: PlantEntity| after_growth(p, delta)
}

/// Lets every seedling grow for `delta` microseconds. Returns the plants
/// that grew up in this tick, as they are now.
pub fn tick_growth(plants: &mut Vec<PlantEntity>, delta: u64) -> (grown: Vec<PlantEntity>)
    ensures
        final(plants)@ == old(plants)@.map_values(after_growth_fn(delta)),
        grown@ == old(plants)@.filter(finishes_growing_pred(delta)).map_values(
            after_growth_fn(delta),
        ),
{
    let mut grown: Vec<PlantEntity> = Vec::new();
    let mut i: usize = 0;
    proof {
        lemma_filter_none(old(plants)@, finishes_growing_pred(delta));
        assert(grown@ =~= old(plants)@.take(0).filter(finishes_growing_pred(delta)).map_values(
            after_growth_fn(delta),
        ));
    }
    while i < plants.len()
        invariant
            i <= plants@.len(),
            plants@.len() == old(plants)@.len(),
            forall|j: int| 0 <= j < i ==> (#[trigger] plants@[j]) == after_growth(old(plants)@[j], delta),
            forall|j: int| i <= j < plants@.len() ==> (#[trigger] plants@[j]) == old(plants)@[j],
            grown@ == old(plants)@.take(i as int).filter(finishes_growing_pred(delta)).map_values(
                after_growth_fn(delta),
            ),
        decreases plants@.len() - i,
    {
        proof {
            lemma_filter_next(old(plants)@, i as int, finishes_growing_pred(delta));
        }
        let mut p = plants[i];
        if let Some(growth) = p.growth {
            let mut timer = growth.0;
            timer.tick(delta);
            if timer.finished() {
                p.growth = None;
                grown.push(p);
            } else {
                p.growth = Some(GrowthTimer(timer));
            }
            plants.set(i, p);
        }
        proof {
            assert(grown@ =~= old(plants)@.take(i + 1).filter(
                finishes_growing_pred(delta),
            ).map_values(after_growth_fn(delta)));
        }
        i += 1;
    }
    proof {
        lemma_take_all(old(plants)@);
        assert(plants@ =~= old(plants)@.map_values(after_growth_fn(delta)));
    }
    grown
}

/// The health left after the first `count` of `events`, of which those aimed
/// at `id` were applied in order.
pub open spec fn health_after_plant_hits(
    health: Health,
    id: EntityId,
    events: Seq<DamagePlantEvent>,
    count: nat,
) -> Health
    decreases count,
{
    if count == 0 {
        health
    } else {
        let before = health_after_plant_hits(health, id, events, (count - 1) as nat);
        if events[count - 1].plant_entity == id {
            before.after_hit(events[count - 1].amount)
        } else {
            before
        }
    }
}

/// The plants after all of `events` were applied: each plant took, in
/// order, the hits aimed at it.
pub open spec fn hit_plants(plants: Seq<PlantEntity>, events: Seq<DamagePlantEvent>) -> Seq<
    PlantEntity,
> {
    Seq::new(
        plants.len(),
        |i: int|
            PlantEntity {
                health: health_after_plant_hits(
                    plants[i].health,
                    plants[i].id,
                    events,
                    events.len(),
                ),
                ..plants[i]
            },
    )
}

/// Applies the damage events to the plants they are aimed at, event by
/// event.
pub fn damage_plants(plants: &mut Vec<PlantEntity>, events: &Vec<DamagePlantEvent>)
    ensures
        final(plants)@ == hit_plants(old(plants)@, events@),
{
    let mut k: usize = 0;
    while k < events.len()
        invariant
            k <= events@.len(),
            plants@.len() == old(plants)@.len(),
            forall|i: int|
                0 <= i < plants@.len() ==> (#[trigger] plants@[i]) == (PlantEntity {
                    health: health_after_plant_hits(
                        old(plants)@[i].health,
                        old(plants)@[i].id,
                        events@,
                        k as nat,
                    ),
                    ..old(plants)@[i]
                }),
        decreases events@.len() - k,
    {
        let ev = events[k];
        let mut i: usize = 0;
        while i < plants.len()
            invariant
                i <= plants@.len(),
                k < events@.len(),
                ev == events@[k as int],
                plants@.len() == old(plants)@.len(),
                forall|j: int|
                    0 <= j < i ==> (#[trigger] plants@[j]) == (PlantEntity {
                        health: health_after_plant_hits(
                            old(plants)@[j].health,
                            old(plants)@[j].id,
                            events@,
                            (k + 1) as nat,
                        ),
                        ..old(plants)@[j]
                    }),
                forall|j: int|
                    i <= j < plants@.len() ==> (#[trigger] plants@[j]) == (PlantEntity {
                        health: health_after_plant_hits(
                            old(plants)@[j].health,
                            old(plants)@[j].id,
                            events@,
                            k as nat,
                        ),
                        ..old(plants)@[j]
                    }),
            decreases plants@.len() - i,
        {
            let mut p = plants[i];
            if p.id == ev.plant_entity {
                p.health.reduce(ev.amount);
                plants.set(i, p);
            }
            i += 1;
        }
        k += 1;
    }
    proof {
        assert(plants@ =~= hit_plants(old(plants)@, events@));
    }
}

/// The fireballs that the spew events ask for: four for each event, one in
/// each direction, with identifiers counted on from `next`.
pub open spec fn spewed_fireballs(events: Seq<SpewFireEvent>, next: u64) -> Seq<FireballEntity> {
    Seq::new(
        4 * events.len(),
        |k: int|
            fresh_fireball(
                EntityId(counter_after(next, k as nat)),
                events[k / 4].plant_entity,
                events[k / 4].origin,
                Cardinal::spec_nth(k % 4),
            ),
    )
}

/// The sounds of spewing: one at the origin of each event.
pub open spec fn spew_sounds(events: Seq<SpewFireEvent>) -> Seq<SoundRequest> {
    Seq::new(
        events.len(),
        |k: int| SoundRequest { sound: SoundEffect::FireballSpawn, position: events[k].origin },
    )
}

/// Spews four fireballs for each event, one in each direction, after the
/// fireballs that are there. Returns the sounds of spewing.
pub fn spew_fire(
    fireballs: &mut Vec<FireballEntity>,
    ids: &mut IdSource,
    events: &Vec<SpewFireEvent>,
) -> (sounds: Vec<SoundRequest>)
    ensures
        final(fireballs)@ == old(fireballs)@ + spewed_fireballs(events@, old(ids).next),
        final(ids).next == counter_after(old(ids).next, 4 * events@.len()),
        sounds@ == spew_sounds(events@),
{
    let mut sounds: Vec<SoundRequest> = Vec::new();
    let mut i: usize = 0;
    proof {
        assert(fireballs@ =~= old(fireballs)@ + spewed_fireballs(events@.take(0), old(ids).next));
        assert(sounds@ =~= spew_sounds(events@.take(0)));
    }
    while i < events.len()
        invariant
            i <= events@.len(),
            fireballs@ == old(fireballs)@ + spewed_fireballs(events@.take(i as int), old(ids).next),
            ids.next == counter_after(old(ids).next, (4 * i) as nat),
            sounds@ == spew_sounds(events@.take(i as int)),
        decreases events@.len() - i,
    {
        let ev = events[i];
        let ghost before = fireballs@;
        let mut d: usize = 0;
        while d < 4
            invariant
                d <= 4,
                i < events@.len(),
                ev == events@[i as int],
                before == old(fireballs)@ + spewed_fireballs(events@.take(i as int), old(ids).next),
                fireballs@.len() == before.len() + d,
                forall|j: int| 0 <= j < before.len() ==> fireballs@[j] == before[j],
                forall|j: int|
                    0 <= j < d ==> (#[trigger] fireballs@[before.len() + j]) == fresh_fireball(
                        EntityId(counter_after(old(ids).next, (4 * i + j) as nat)),
                        ev.plant_entity,
                        ev.origin,
                        Cardinal::spec_nth(j),
                    ),
                ids.next == counter_after(old(ids).next, (4 * i + d) as nat),
            decreases 4 - d,
        {
            let id = ids.allocate();
            fireballs.push(fireball(id, ev.plant_entity, ev.origin, Cardinal::nth(d)));
            d += 1;
        }
        sounds.push(SoundRequest { sound: SoundEffect::FireballSpawn, position: ev.origin });
        proof {
            let want = old(fireballs)@ + spewed_fireballs(events@.take(i + 1), old(ids).next);
            assert(fireballs@.len() == want.len());
            assert forall|j: int| 0 <= j < want.len() implies fireballs@[j] == want[j] by {
                let base = old(fireballs)@.len() as int;
                if j < before.len() {
                    assert(fireballs@[j] == before[j]);
                } else {
                    let off = j - before.len();
                    assert(fireballs@[before.len() + off] == fresh_fireball(
                        EntityId(counter_after(old(ids).next, (4 * i + off) as nat)),
                        ev.plant_entity,
                        ev.origin,
                        Cardinal::spec_nth(off),
                    ));
                    let k = j - base;
                    assert(k == 4 * i + off);
                    assert(k / 4 == i as int && k % 4 == off) by (nonlinear_arith)
                        requires
                            k == 4 * i + off,
                            0 <= off < 4,
                            i >= 0,
                    ;
                }
            }
            assert(fireballs@ =~= want);
            assert(sounds@ =~= spew_sounds(events@.take(i + 1)));
        }
        i += 1;
    }
    proof {
        lemma_take_all(events@);
    }
    sounds
}

} // verus!
