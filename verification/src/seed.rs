//! Seeds in flight: a thrown seed flies from waypoint to waypoint and is
//! sown where its path ends.

use vstd::prelude::*;
use crate::entity::{next_counter, EntityId, IdSource};
use crate::geometry::{strictly_within, GridPoint};
use crate::physics::Motion;
use crate::plant::{PlantType, SowPlantEvent};
use crate::player::{throws_view, ThrowSeedEvent, ThrowSeedView};
use crate::sound::seq_of;

verus! {

/// Speed of a seed in flight, in pixels per second.
pub const SEED_MOVE_SPEED: u32 = 300;

/// A seed nearer than this to a waypoint has arrived there.
pub const SEED_POINT_EPSILON: u32 = 5;

/// What makes an entity a seed.
#[derive(Clone, Copy, Debug, PartialEq, Eq, Structural)]
pub struct Seed;

/// The waypoints a seed has still to reach, the next one first.
#[derive(Clone, Debug)]
pub struct SeedPath {
    pub path: Vec<GridPoint>,
}

/// A seed in the world.
#[derive(Clone, Debug)]
pub struct SeedEntity {
    pub id: EntityId,
    pub seed: Seed,
    /// The kind of plant that grows from the seed.
    pub plant_type: PlantType,
    pub path: SeedPath,
    pub position: GridPoint,
    pub motion: Motion,
}

/// A seed, as mathematical values.
pub struct SeedView {
    pub id: EntityId,
    pub plant_type: PlantType,
    pub path: Seq<GridPoint>,
    pub position: GridPoint,
    pub motion: Motion,
}

impl View for SeedEntity {
    type V = SeedView;

    open spec fn view(&self) -> SeedView {
        SeedView {
            id: self.id,
            plant_type: self.plant_type,
            path: self.path.path@,
            position: self.position,
            motion: self.motion,
        }
    }
}

/// The seeds of a collection, as mathematical values.
pub open spec fn seeds_view(seeds: Seq<SeedEntity>) -> Seq<SeedView> {
    Seq::new(seeds.len(), |i: int| seeds[i]@)
}

/// A copy of the points.
pub fn copy_points(points: &Vec<GridPoint>) -> (copy: Vec<GridPoint>)
    ensures
        copy@ == points@,
{
    let mut copy: Vec<GridPoint> = Vec::new();
    let mut i: usize = 0;
    while i < points.len()
        invariant
            i <= points@.len(),
            copy@ == points@.take(i as int),
        decreases points@.len() - i,
    {
        copy.push(points[i]);
        proof {
            assert(copy@ =~= points@.take(i + 1));
        }
        i += 1;
    }
    proof {
        assert(points@.take(points@.len() as int) =~= points@);
    }
    copy
}

/// A copy of the points after the first; of no points, none.
pub fn tail_points(points: &Vec<GridPoint>) -> (tail: Vec<GridPoint>)
    ensures
        points@.len() >= 1 ==> tail@ == points@.skip(1),
        points@.len() == 0 ==> tail@.len() == 0,
{
    let mut tail: Vec<GridPoint> = Vec::new();
    if points.len() == 0 {
        return tail;
    }
    let mut i: usize = 1;
    proof {
        assert(tail@ =~= points@.subrange(1, 1));
    }
    while i < points.len()
        invariant
            1 <= i <= points@.len(),
            tail@ == points@.subrange(1, i as int),
        decreases points@.len() - i,
    {
        tail.push(points[i]);
        proof {
            assert(tail@ =~= points@.subrange(1, i + 1));
        }
        i += 1;
    }
    proof {
        assert(points@.subrange(1, points@.len() as int) =~= points@.skip(1));
    }
    tail
}

/// A fresh seed at `origin`, at rest, with `path` before it.
pub fn seed(id: EntityId, plant_type: PlantType, path: SeedPath, origin: GridPoint) -> (s: SeedEntity)
    ensures
        s@ == (SeedView {
            id,
            plant_type,
            path: path.path@,
            position: origin,
            motion: Motion::Still,
        }),
{
    SeedEntity { id, seed: Seed, plant_type, path, position: origin, motion: Motion::Still }
}

/// The seeds that the first `count` throws put into the world, and the next
/// free identifier after them, counted on from `next`. A throw along an
/// empty path puts nothing into the world; any other puts a seed at the
/// first point of its path, with the rest of the path before it.
pub open spec fn spec_created(events: Seq<ThrowSeedView>, next: u64, count: nat) -> (
    Seq<SeedView>,
    u64,
)
    decreases count,
{
    if count == 0 {
        (Seq::empty(), next)
    } else {
        let before = spec_created(events, next, (count - 1) as nat);
        let ev = events[count - 1];
        if ev.path.len() == 0 {
            before
        } else {
            (
                before.0.push(
                    SeedView {
                        id: EntityId(before.1),
                        plant_type: ev.seed_type,
                        path: ev.path.skip(1),
                        position: ev.path[0],
                        motion: Motion::Still,
                    },
                ),
                next_counter(before.1),
            )
        }
    }
}

/// Puts a seed into the world for each throw, in order, after the seeds
/// that are there.
pub fn create_seeds(seeds: &mut Vec<SeedEntity>, ids: &mut IdSource, events: &Vec<ThrowSeedEvent>)
    ensures
        seeds_view(final(seeds)@) == seeds_view(old(seeds)@) + spec_created(
            throws_view(events@),
            old(ids).next,
            events@.len(),
        ).0,
        final(ids).next == spec_created(throws_view(events@), old(ids).next, events@.len()).1,
{
    let mut i: usize = 0;
    proof {
        assert(seeds_view(seeds@) =~= seeds_view(old(seeds)@) + spec_created(
            throws_view(events@),
            old(ids).next,
            0,
        ).0);
    }
    while i < events.len()
        invariant
            i <= events@.len(),
            seeds_view(seeds@) == seeds_view(old(seeds)@) + spec_created(
                throws_view(events@),
                old(ids).next,
                i as nat,
            ).0,
            ids.next == spec_created(throws_view(events@), old(ids).next, i as nat).1,
        decreases events@.len() - i,
    {
        let ghost before = seeds@;
        assert(throws_view(events@)[i as int] == events@[i as int]@);
        if events[i].path.len() > 0 {
            let origin = events[i].path[0];
            let rest = tail_points(&events[i].path);
            let id = ids.allocate();
            let s = seed(id, events[i].seed_type, SeedPath { path: rest }, origin);
            seeds.push(s);
            proof {
                assert(seeds_view(seeds@) =~= seeds_view(before).push(s@));
                assert(seeds_view(seeds@) =~= seeds_view(old(seeds)@) + spec_created(
                    throws_view(events@),
                    old(ids).next,
                    (i + 1) as nat,
                ).0);
            }
        }
        i += 1;
    }
}

/// What one seed does in one tick.
pub struct SeedStepView {
    /// The seed after the tick, if it stays in the world.
    pub kept: Option<SeedView>,
    /// The sowing, if the seed reached the end of its path.
    pub sow: Option<SowPlantEvent>,
    /// The throw that carries the seed on, if it reached a relay.
    pub throw: Option<ThrowSeedView>,
}

/// What `seed` does in one tick.
///
/// A seed with nothing before it is sown where it is. A seed that has
/// arrived at its next waypoint leaves the world: at the last waypoint it
/// is sown where it is; at any other it is thrown on along the path that
/// starts at that waypoint. A seed that has not arrived flies towards its
/// next waypoint.
pub open spec fn spec_seed_step(seed: SeedView) -> SeedStepView {
    if seed.path.len() == 0 {
        SeedStepView {
            kept: None,
            sow: Some(SowPlantEvent { position: seed.position, seed_type: seed.plant_type }),
            throw: None,
        }
    } else if strictly_within(seed.position, seed.path[0], SEED_POINT_EPSILON as int) {
        if seed.path.len() == 1 {
            SeedStepView {
                kept: None,
                sow: Some(SowPlantEvent { position: seed.position, seed_type: seed.plant_type }),
                throw: None,
            }
        } else {
            SeedStepView {
                kept: None,
                sow: None,
                throw: Some(
                    ThrowSeedView { from_player: false, path: seed.path, seed_type: seed.plant_type },
                ),
            }
        }
    } else {
        SeedStepView {
            kept: Some(
                SeedView {
                    motion: Motion::Toward { target: seed.path[0], speed: SEED_MOVE_SPEED },
                    ..seed
                },
            ),
            sow: None,
            throw: None,
        }
    }
}

/// What all seeds did in one tick, as mathematical sequences.
pub struct SeedMovesView {
    /// The seeds that stay, after the tick.
    pub seeds: Seq<SeedView>,
    pub sow_events: Seq<SowPlantEvent>,
    pub throw_events: Seq<ThrowSeedView>,
}

/// What the first `count` seeds do in one tick, seed by seed in the order
/// of the collection.
pub open spec fn spec_seed_moves(seeds: Seq<SeedView>, count: nat) -> SeedMovesView
    decreases count,
{
    if count == 0 {
        SeedMovesView {
            seeds: Seq::empty(),
            sow_events: Seq::empty(),
            throw_events: Seq::empty(),
        }
    } else {
        let before = spec_seed_moves(seeds, (count - 1) as nat);
        let step = spec_seed_step(seeds[count - 1]);
        SeedMovesView {
            seeds: before.seeds + seq_of(step.kept),
            sow_events: before.sow_events + seq_of(step.sow),
            throw_events: before.throw_events + seq_of(step.throw),
        }
    }
}

/// What all seeds did in one tick.
#[derive(Debug)]
pub struct SeedMoves {
    pub sow_events: Vec<SowPlantEvent>,
    pub throw_events: Vec<ThrowSeedEvent>,
}

/// Lets every seed take its step. Seeds that arrived leave the world, and
/// the sowing or the next throw is asked for; the others fly on.
pub fn move_seeds(seeds: &mut Vec<SeedEntity>) -> (moves: SeedMoves)
    ensures
        ({
            let after = spec_seed_moves(seeds_view(old(seeds)@), old(seeds)@.len());
            &&& seeds_view(final(seeds)@) == after.seeds
            &&& moves.sow_events@ == after.sow_events
            &&& throws_view(moves.throw_events@) == after.throw_events
        }),
{
    let mut kept: Vec<SeedEntity> = Vec::new();
    let mut moves = SeedMoves { sow_events: Vec::new(), throw_events: Vec::new() };
    let mut i: usize = 0;
    proof {
        assert(seeds_view(kept@) =~= Seq::<SeedView>::empty());
        assert(throws_view(moves.throw_events@) =~= Seq::<ThrowSeedView>::empty());
    }
    while i < seeds.len()
        invariant
            i <= seeds@.len(),
            seeds@ == old(seeds)@,
            ({
                let now = spec_seed_moves(seeds_view(seeds@), i as nat);
                &&& seeds_view(kept@) == now.seeds
                &&& moves.sow_events@ == now.sow_events
                &&& throws_view(moves.throw_events@) == now.throw_events
            }),
        decreases seeds@.len() - i,
    {
        let ghost now = spec_seed_moves(seeds_view(seeds@), i as nat);
        let ghost step = spec_seed_step(seeds_view(seeds@)[i as int]);
        let ghost kept_before = kept@;
        let ghost throws_before = moves.throw_events@;
        let s = &seeds[i];
        assert(s@ == seeds_view(seeds@)[i as int]);
        if s.path.path.len() == 0 {
            moves.sow_events.push(SowPlantEvent { position: s.position, seed_type: s.plant_type });
        } else if s.position.is_strictly_within(&s.path.path[0], SEED_POINT_EPSILON) {
            if s.path.path.len() == 1 {
                moves.sow_events.push(
                    SowPlantEvent { position: s.position, seed_type: s.plant_type },
                );
            } else {
                let throw = ThrowSeedEvent {
                    from_player: false,
                    path: copy_points(&s.path.path),
                    seed_type: s.plant_type,
                };
                proof {
                    assert(throw@ == step.throw.unwrap());
                }
                moves.throw_events.push(throw);
            }
        } else {
            let flying = SeedEntity {
                id: s.id,
                seed: Seed,
                plant_type: s.plant_type,
                path: SeedPath { path: copy_points(&s.path.path) },
                position: s.position,
                motion: Motion::Toward { target: s.path.path[0], speed: SEED_MOVE_SPEED },
            };
            proof {
                assert(flying@ == step.kept.unwrap());
            }
            kept.push(flying);
        }
        proof {
            assert(seeds_view(kept@) =~= seeds_view(kept_before) + seq_of(step.kept));
            assert(throws_view(moves.throw_events@) =~= throws_view(throws_before) + seq_of(
                step.throw,
            ));
            assert(moves.sow_events@ =~= now.sow_events + seq_of(step.sow));
        }
        i += 1;
    }
    *seeds = kept;
    moves
}

/// A seed that stays in the world asks for nothing, and a seed that leaves
/// asks for exactly one thing: to be sown or to be thrown on.
pub proof fn lemma_seed_step_asks_once(seed: SeedView)
    ensures
        ({
            let step = spec_seed_step(seed);
            &&& step.kept.is_some() ==> step.sow.is_none() && step.throw.is_none()
            &&& step.kept.is_none() ==> (step.sow.is_some() != step.throw.is_some())
            &&& step.throw matches Some(t) ==> t.path.len() >= 2 && !t.from_player
            &&& step.kept matches Some(k) ==> k.path == seed.path && k.id == seed.id
        }),
{
}

/// A seed that arrives at a relay is thrown on with one waypoint fewer
/// before it: the throw puts a seed of the same kind on the relay, with the
/// rest of the path before it.
pub proof fn lemma_relay_consumes_one_waypoint(seed: SeedView, next: u64)
    requires
        spec_seed_step(seed).throw.is_some(),
    ensures
        spec_created(seq![spec_seed_step(seed).throw.unwrap()], next, 1).0 == seq![
            SeedView {
                id: EntityId(next),
                plant_type: seed.plant_type,
                path: seed.path.skip(1),
                position: seed.path[0],
                motion: Motion::Still,
            },
        ],
{
    let throws = seq![spec_seed_step(seed).throw.unwrap()];
    assert(spec_created(throws, next, 0).0 =~= Seq::<SeedView>::empty());
    assert(spec_created(throws, next, 1).0 =~= seq![
        SeedView {
            id: EntityId(next),
            plant_type: seed.plant_type,
            path: seed.path.skip(1),
            position: seed.path[0],
            motion: Motion::Still,
        },
    ]);
}

} // verus!
