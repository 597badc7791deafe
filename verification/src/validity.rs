//! A world is valid when its identifiers are: within each collection they
//! rise in the order of the collection, all lie below the next identifier
//! to be handed out, and no identifier names two things. A tick keeps a
//! world valid as long as the source of identifiers has not run out.

use vstd::prelude::*;
use crate::burn::{active_fireball, spec_burn};
use crate::coin::coins;
use crate::enemy::{
    blow_positions, cooled_all, hit_enemies, spec_enemy_step, spec_pursuit, spec_spawned,
    EnemyEntity, SpawnerEntity,
};
use crate::entity::counter_after;
use crate::geometry::GridPoint;
use crate::health::{living_enemy, living_plant};
use crate::ids::{
    all_below, ascending, counted_from, drawn_from, has_key, lemma_append_fresh,
    lemma_filter_picks, lemma_picked_is_drawn, lemma_picked_next, lemma_picked_none,
    lemma_picked_twice, lemma_same_keys_pick, picked_from,
};
use crate::lifespan::{aged_fireball, aged_particle, lasting_fireball, lasting_particle};
use crate::particle::stars;
use crate::physics::CollisionStarted;
use crate::plant::{after_growth_fn, hit_plants, sown_plants, spewed_fireballs};
use crate::player::{PlayerClickEvent, ThrowSeedView};
use crate::farm::RestartGameEvent;
use crate::seed::{spec_created, spec_seed_moves, spec_seed_step};
use crate::smoke::smoke_puffs;
use crate::sound::seq_of;
use crate::particle::ParticleEntity;
use crate::plant::{FireballEntity, PlantEntity};
use crate::seed::SeedView;
use crate::world::WorldView;

verus! {

/// The number that names a plant.
pub open spec fn plant_key() -> spec_fn(PlantEntity) -> u64 {
    |p: PlantEntity| p.id.0
}

/// The number that names a rat.
pub open spec fn enemy_key() -> spec_fn(EnemyEntity) -> u64 {
    |e: EnemyEntity| e.id.0
}

/// The number that names a fireball.
pub open spec fn fireball_key() -> spec_fn(FireballEntity) -> u64 {
    |f: FireballEntity| f.id.0
}

/// The number that names a seed.
pub open spec fn seed_key() -> spec_fn(SeedView) -> u64 {
    |s: SeedView| s.id.0
}

/// The number that names a particle.
pub open spec fn particle_key() -> spec_fn(ParticleEntity) -> u64 {
    |p: ParticleEntity| p.id.0
}

/// The new identifiers that each collection may take up in one step: for
/// each collection those from a lower bound up to but not including an
/// upper bound.
pub struct FreshIds {
    pub plants: (u64, u64),
    pub enemies: (u64, u64),
    pub fireballs: (u64, u64),
    pub seeds: (u64, u64),
    pub particles: (u64, u64),
}

impl FreshIds {
    /// No collection takes up a new identifier.
    pub open spec fn none(at: u64) -> FreshIds {
        FreshIds {
            plants: (at, at),
            enemies: (at, at),
            fireballs: (at, at),
            seeds: (at, at),
            particles: (at, at),
        }
    }

    /// The ranges follow one another between `from` and `to`, so no two of
    /// them share an identifier.
    pub open spec fn in_order(self, from: u64, to: u64) -> bool {
        from <= self.plants.0 <= self.plants.1 <= self.enemies.0 <= self.enemies.1
            <= self.fireballs.0 <= self.fireballs.1 <= self.seeds.0 <= self.seeds.1
            <= self.particles.0 <= self.particles.1 <= to
    }
}

impl WorldView {
    /// In how many collections the identifier `k` names something.
    pub open spec fn kinds_with(self, k: u64) -> int {
        (if has_key(self.plants, plant_key(), k) {
            1int
        } else {
            0int
        }) + (if has_key(self.enemies, enemy_key(), k) {
            1int
        } else {
            0int
        }) + (if has_key(self.fireballs, fireball_key(), k) {
            1int
        } else {
            0int
        }) + (if has_key(self.seeds, seed_key(), k) {
            1int
        } else {
            0int
        }) + (if has_key(self.particles, particle_key(), k) {
            1int
        } else {
            0int
        })
    }

    /// Within each collection the identifiers rise.
    pub open spec fn ids_ascending(self) -> bool {
        &&& ascending(self.plants, plant_key())
        &&& ascending(self.enemies, enemy_key())
        &&& ascending(self.fireballs, fireball_key())
        &&& ascending(self.seeds, seed_key())
        &&& ascending(self.particles, particle_key())
    }

    /// Every identifier in use lies below `bound`.
    pub open spec fn ids_below(self, bound: u64) -> bool {
        &&& all_below(self.plants, plant_key(), bound)
        &&& all_below(self.enemies, enemy_key(), bound)
        &&& all_below(self.fireballs, fireball_key(), bound)
        &&& all_below(self.seeds, seed_key(), bound)
        &&& all_below(self.particles, particle_key(), bound)
    }

    /// The world is valid: within each collection the identifiers rise,
    /// all of them lie below the next one to be handed out, and none names
    /// things in two collections.
    pub open spec fn wf(self) -> bool {
        &&& self.ids_ascending()
        &&& self.ids_below(self.ids_next)
        &&& forall|k: u64| #[trigger] self.kinds_with(k) <= 1
    }

    /// The collections of `post` draw their identifiers from those of
    /// `self` and from the new ones in `fresh`.
    pub open spec fn evolves_to(self, post: WorldView, fresh: FreshIds) -> bool {
        &&& post.ids_ascending()
        &&& drawn_from(post.plants, self.plants, plant_key(), fresh.plants.0, fresh.plants.1)
        &&& drawn_from(post.enemies, self.enemies, enemy_key(), fresh.enemies.0, fresh.enemies.1)
        &&& drawn_from(
            post.fireballs,
            self.fireballs,
            fireball_key(),
            fresh.fireballs.0,
            fresh.fireballs.1,
        )
        &&& drawn_from(post.seeds, self.seeds, seed_key(), fresh.seeds.0, fresh.seeds.1)
        &&& drawn_from(
            post.particles,
            self.particles,
            particle_key(),
            fresh.particles.0,
            fresh.particles.1,
        )
        &&& fresh.in_order(self.ids_next, post.ids_next)
    }
}

/// A key that a collection drew was there before or is a new one.
proof fn lemma_drawn_key<T>(
    post: Seq<T>,
    pre: Seq<T>,
    key: spec_fn(T) -> u64,
    lo: u64,
    hi: u64,
    bound: u64,
    k: u64,
)
    requires
        drawn_from(post, pre, key, lo, hi),
        all_below(pre, key, bound),
        bound <= lo,
    ensures
        all_below(post, key, (if hi > bound { hi } else { bound })),
        has_key(post, key, k) && k < bound ==> has_key(pre, key, k),
        has_key(post, key, k) && k >= bound ==> lo <= k < hi,
        k >= bound ==> !has_key(pre, key, k),
{
    assert forall|j: int| 0 <= j < post.len() implies key(#[trigger] post[j]) < (if hi > bound {
        hi
    } else {
        bound
    }) by {
        if has_key(pre, key, key(post[j])) {
            let i = choose|i: int| 0 <= i < pre.len() && key(#[trigger] pre[i]) == key(post[j]);
            assert(key(pre[i]) < bound);
        }
    }
    if has_key(post, key, k) {
        let j = choose|j: int| 0 <= j < post.len() && key(#[trigger] post[j]) == k;
        assert(has_key(pre, key, key(post[j])) || lo <= key(post[j]) < hi);
        if has_key(pre, key, k) {
            let i = choose|i: int| 0 <= i < pre.len() && key(#[trigger] pre[i]) == k;
            assert(key(pre[i]) < bound);
        }
    }
    if has_key(pre, key, k) {
        let i = choose|i: int| 0 <= i < pre.len() && key(#[trigger] pre[i]) == k;
        assert(key(pre[i]) < bound);
    }
}

/// A valid world stays valid through any step in which each collection
/// keeps its order and draws its identifiers from what it held and from
/// new ones of its own.
pub proof fn lemma_evolution_keeps_valid(pre: WorldView, post: WorldView, fresh: FreshIds)
    requires
        pre.wf(),
        pre.evolves_to(post, fresh),
    ensures
        post.wf(),
{
    let b = pre.ids_next;
    lemma_drawn_key(post.plants, pre.plants, plant_key(), fresh.plants.0, fresh.plants.1, b, 0);
    lemma_drawn_key(post.enemies, pre.enemies, enemy_key(), fresh.enemies.0, fresh.enemies.1, b, 0);
    lemma_drawn_key(
        post.fireballs,
        pre.fireballs,
        fireball_key(),
        fresh.fireballs.0,
        fresh.fireballs.1,
        b,
        0,
    );
    lemma_drawn_key(post.seeds, pre.seeds, seed_key(), fresh.seeds.0, fresh.seeds.1, b, 0);
    lemma_drawn_key(
        post.particles,
        pre.particles,
        particle_key(),
        fresh.particles.0,
        fresh.particles.1,
        b,
        0,
    );
    assert(post.ids_below(post.ids_next));
    assert forall|k: u64| #[trigger] post.kinds_with(k) <= 1 by {
        lemma_drawn_key(post.plants, pre.plants, plant_key(), fresh.plants.0, fresh.plants.1, b, k);
        lemma_drawn_key(
            post.enemies,
            pre.enemies,
            enemy_key(),
            fresh.enemies.0,
            fresh.enemies.1,
            b,
            k,
        );
        lemma_drawn_key(
            post.fireballs,
            pre.fireballs,
            fireball_key(),
            fresh.fireballs.0,
            fresh.fireballs.1,
            b,
            k,
        );
        lemma_drawn_key(post.seeds, pre.seeds, seed_key(), fresh.seeds.0, fresh.seeds.1, b, k);
        lemma_drawn_key(
            post.particles,
            pre.particles,
            particle_key(),
            fresh.particles.0,
            fresh.particles.1,
            b,
            k,
        );
        assert(pre.kinds_with(k) <= 1);
    }
}

/// A collection that stays as it is keeps its order and draws its
/// identifiers from itself.
pub proof fn lemma_kept<T>(s: Seq<T>, key: spec_fn(T) -> u64, lo: u64, hi: u64)
    requires
        ascending(s, key),
    ensures
        picked_from(s, s, key, s.len() as int),
        drawn_from(s, s, key, lo, hi),
{
    lemma_same_keys_pick(s, s, key);
    lemma_picked_is_drawn(s, s, key, s.len() as int, lo, hi);
}

/// A world in which nothing of a round is left is valid.
pub proof fn lemma_empty_world_is_valid(world: WorldView)
    requires
        world.plants.len() == 0,
        world.enemies.len() == 0,
        world.fireballs.len() == 0,
        world.seeds.len() == 0,
        world.particles.len() == 0,
    ensures
        world.wf(),
{
    assert forall|k: u64| #[trigger] world.kinds_with(k) <= 1 by {
        assert(!has_key(world.plants, plant_key(), k));
        assert(!has_key(world.enemies, enemy_key(), k));
        assert(!has_key(world.fireballs, fireball_key(), k));
        assert(!has_key(world.seeds, seed_key(), k));
        assert(!has_key(world.particles, particle_key(), k));
    }
}

/// Starting a new round keeps a valid world valid, and hands out no
/// identifier.
pub proof fn lemma_restart_keeps_valid(world: WorldView, count: nat)
    requires
        world.wf(),
    ensures
        world.restarted_times(count).wf(),
        world.restarted_times(count).ids_next == world.ids_next,
    decreases count,
{
    if count > 0 {
        lemma_restart_keeps_valid(world, (count - 1) as nat);
        let before = world.restarted_times((count - 1) as nat);
        if before.bank_account.is_some() {
            lemma_empty_world_is_valid(before.restarted());
        }
    }
}

/// The check for the end of a round keeps a valid world valid, and hands
/// out no identifier.
pub proof fn lemma_end_keeps_valid(world: WorldView)
    requires
        world.wf(),
    ensures
        world.ended().wf(),
        world.ended().ids_next == world.ids_next,
{
    if world.ended() != world {
        lemma_empty_world_is_valid(world.ended());
    }
}

/// Answering clicks keeps a valid world valid, and hands out no identifier.
pub proof fn lemma_clicks_keep_valid(world: WorldView, clicks: Seq<PlayerClickEvent>)
    requires
        world.wf(),
    ensures
        world.after_clicks(clicks).wf(),
        world.after_clicks(clicks).ids_next == world.ids_next,
{
    let post = world.after_clicks(clicks);
    assert forall|k: u64| #[trigger] post.kinds_with(k) <= 1 by {
        assert(world.kinds_with(k) <= 1);
    }
}

/// Selling a daisy chain keeps a valid world valid, and hands out no
/// identifier.
pub proof fn lemma_sales_keep_valid(world: WorldView)
    requires
        world.wf(),
    ensures
        world.after_sales().wf(),
        world.after_sales().ids_next == world.ids_next,
{
    let post = world.after_sales();
    let n = world.ids_next;
    if post.plants != world.plants {
        let chain = crate::daisy_chain::spec_daisy_chain(world.plants).unwrap();
        lemma_filter_picks(
            world.plants,
            crate::daisy_chain::unsold_pred(chain.daisy_entities),
            plant_key(),
        );
        lemma_picked_is_drawn(
            post.plants,
            world.plants,
            plant_key(),
            world.plants.len() as int,
            n,
            n,
        );
    } else {
        lemma_kept(world.plants, plant_key(), n, n);
    }
    lemma_kept(world.enemies, enemy_key(), n, n);
    lemma_kept(world.fireballs, fireball_key(), n, n);
    lemma_kept(world.seeds, seed_key(), n, n);
    lemma_kept(world.particles, particle_key(), n, n);
    lemma_evolution_keeps_valid(world, post, FreshIds::none(n));
}

/// Items that changed but kept their keys, one for one, of which a filter
/// kept some, are picked from the collection.
proof fn lemma_changed_and_filtered<T>(
    pre: Seq<T>,
    mid: Seq<T>,
    pred: spec_fn(T) -> bool,
    key: spec_fn(T) -> u64,
    lo: u64,
    hi: u64,
)
    requires
        ascending(pre, key),
        mid.len() == pre.len(),
        forall|i: int| 0 <= i < pre.len() ==> key(#[trigger] mid[i]) == key(pre[i]),
    ensures
        picked_from(mid, pre, key, pre.len() as int),
        picked_from(mid.filter(pred), pre, key, pre.len() as int),
        ascending(mid.filter(pred), key),
        drawn_from(mid.filter(pred), pre, key, lo, hi),
        drawn_from(mid, pre, key, lo, hi),
{
    lemma_same_keys_pick(mid, pre, key);
    lemma_filter_picks(mid, pred, key);
    lemma_picked_twice(mid.filter(pred), mid, pre, key);
    lemma_picked_is_drawn(mid.filter(pred), pre, key, pre.len() as int, lo, hi);
    lemma_picked_is_drawn(mid, pre, key, pre.len() as int, lo, hi);
}

/// The spawners add rats after those that are there, with identifiers
/// counted on from `next`.
proof fn lemma_spawned_appends(
    spawners: Seq<SpawnerEntity>,
    enemies: Seq<EnemyEntity>,
    plants: Seq<PlantEntity>,
    next: u64,
    delta: u64,
    rolls: Seq<u32>,
    count: nat,
)
    ensures
        ({
            let r = spec_spawned(spawners, enemies, plants, next, delta, rolls, count);
            &&& r.1 >= next
            &&& r.0.len() >= enemies.len()
            &&& r.1 < u64::MAX ==> {
                &&& r.0 == enemies + r.0.skip(enemies.len() as int)
                &&& counted_from(r.0.skip(enemies.len() as int), enemy_key(), next)
                &&& r.1 == next + (r.0.len() - enemies.len())
            }
        }),
    decreases count,
{
    let r = spec_spawned(spawners, enemies, plants, next, delta, rolls, count);
    if count == 0 {
        assert(r.0 =~= enemies + r.0.skip(enemies.len() as int));
    } else {
        lemma_spawned_appends(spawners, enemies, plants, next, delta, rolls, (count - 1) as nat);
        let before = spec_spawned(
            spawners,
            enemies,
            plants,
            next,
            delta,
            rolls,
            (count - 1) as nat,
        );
        if r.1 < u64::MAX {
            assert(before.1 < u64::MAX);
            assert(r.0 =~= enemies + r.0.skip(enemies.len() as int));
            if r != before {
                let fresh = r.0.skip(enemies.len() as int);
                let old_fresh = before.0.skip(enemies.len() as int);
                assert forall|k: int| 0 <= k < fresh.len() implies enemy_key()(
                    #[trigger] fresh[k],
                ) == next + k by {
                    if k < old_fresh.len() {
                        assert(fresh[k] == old_fresh[k]);
                    }
                }
            }
        }
    }
}

/// Running the timers never takes the counter of identifiers back, and
/// keeps a valid world valid as long as the counter has not run out.
pub proof fn lemma_timers_keep_valid(world: WorldView, delta: u64, spawn_rolls: Seq<u32>)
    ensures
        world.after_timers(delta, spawn_rolls).ids_next >= world.ids_next,
        world.wf() && world.after_timers(delta, spawn_rolls).ids_next < u64::MAX
            ==> world.after_timers(delta, spawn_rolls).wf(),
{
    let post = world.after_timers(delta, spawn_rolls);
    let n = world.ids_next;
    let plants = world.plants.map_values(after_growth_fn(delta));
    let cooled = cooled_all(world.enemies, delta);
    lemma_spawned_appends(
        world.spawners,
        cooled,
        plants,
        n,
        delta,
        spawn_rolls,
        world.spawners.len(),
    );
    if world.wf() && post.ids_next < u64::MAX {
        let m = post.ids_next;
        lemma_changed_and_filtered(
            world.fireballs,
            world.fireballs.map_values(aged_fireball(delta)),
            lasting_fireball(),
            fireball_key(),
            m,
            m,
        );
        lemma_changed_and_filtered(
            world.particles,
            world.particles.map_values(aged_particle(delta)),
            lasting_particle(),
            particle_key(),
            m,
            m,
        );
        lemma_changed_and_filtered(
            world.plants,
            plants,
            |p: PlantEntity| true,
            plant_key(),
            n,
            n,
        );
        lemma_changed_and_filtered(
            world.enemies,
            cooled,
            |e: EnemyEntity| true,
            enemy_key(),
            n,
            n,
        );
        let fresh = post.enemies.skip(cooled.len() as int);
        lemma_append_fresh(cooled, world.enemies, fresh, enemy_key(), n, m);
        lemma_kept(world.seeds, seed_key(), m, m);
        lemma_evolution_keeps_valid(
            world,
            post,
            FreshIds {
                plants: (n, n),
                enemies: (n, m),
                fireballs: (m, m),
                seeds: (m, m),
                particles: (m, m),
            },
        );
    }
}

/// The rats that stay after a pursuit are picked from the rats before it.
proof fn lemma_pursuit_picks(
    enemies: Seq<EnemyEntity>,
    plants: Seq<PlantEntity>,
    player: Option<GridPoint>,
    rolls: Seq<u32>,
    count: nat,
)
    requires
        ascending(enemies, enemy_key()),
        count <= enemies.len(),
    ensures
        picked_from(
            spec_pursuit(enemies, plants, player, rolls, count).enemies,
            enemies,
            enemy_key(),
            count as int,
        ),
    decreases count,
{
    if count == 0 {
        lemma_picked_none(enemies, enemy_key());
    } else {
        lemma_pursuit_picks(enemies, plants, player, rolls, (count - 1) as nat);
        let before = spec_pursuit(enemies, plants, player, rolls, (count - 1) as nat);
        let step = spec_enemy_step(
            enemies[count - 1],
            plants,
            player,
            crate::random::roll_at(rolls, count - 1),
        );
        assert(step.enemy.id == enemies[count - 1].id);
        lemma_picked_next(before.enemies, enemies, enemy_key(), count as int, step.enemy);
    }
}

/// The pursuit keeps a valid world valid, and hands out no identifier.
pub proof fn lemma_pursuit_keeps_valid(world: WorldView, ring_rolls: Seq<u32>)
    requires
        world.wf(),
    ensures
        world.after_pursuit(ring_rolls).wf(),
        world.after_pursuit(ring_rolls).ids_next == world.ids_next,
{
    let post = world.after_pursuit(ring_rolls);
    let n = world.ids_next;
    lemma_pursuit_picks(
        world.enemies,
        world.plants,
        world.player_position(),
        ring_rolls,
        world.enemies.len(),
    );
    lemma_picked_is_drawn(
        post.enemies,
        world.enemies,
        enemy_key(),
        world.enemies.len() as int,
        n,
        n,
    );
    lemma_kept(world.plants, plant_key(), n, n);
    lemma_kept(world.fireballs, fireball_key(), n, n);
    lemma_kept(world.seeds, seed_key(), n, n);
    lemma_kept(world.particles, particle_key(), n, n);
    lemma_evolution_keeps_valid(world, post, FreshIds::none(n));
}

/// Burning changes neither how many fireballs and rats there are nor what
/// they are called.
proof fn lemma_burn_keeps_ids(
    fireballs: Seq<FireballEntity>,
    enemies: Seq<EnemyEntity>,
    collisions: Seq<CollisionStarted>,
    count: nat,
)
    ensures
        ({
            let r = spec_burn(fireballs, enemies, collisions, count);
            &&& r.fireballs.len() == fireballs.len()
            &&& r.enemies.len() == enemies.len()
            &&& forall|i: int|
                0 <= i < fireballs.len() ==> fireball_key()(#[trigger] r.fireballs[i])
                    == fireball_key()(fireballs[i])
            &&& forall|i: int|
                0 <= i < enemies.len() ==> enemy_key()(#[trigger] r.enemies[i]) == enemy_key()(
                    enemies[i],
                )
        }),
    decreases count,
{
    if count > 0 {
        lemma_burn_keeps_ids(fireballs, enemies, collisions, (count - 1) as nat);
    }
}

/// Burning keeps a valid world valid, and hands out no identifier.
pub proof fn lemma_burns_keep_valid(world: WorldView, collisions: Seq<CollisionStarted>)
    requires
        world.wf(),
    ensures
        world.after_burns(collisions).wf(),
        world.after_burns(collisions).ids_next == world.ids_next,
{
    let post = world.after_burns(collisions);
    let n = world.ids_next;
    let burnt = spec_burn(world.fireballs, world.enemies, collisions, collisions.len());
    lemma_burn_keeps_ids(world.fireballs, world.enemies, collisions, collisions.len());
    lemma_changed_and_filtered(
        world.fireballs,
        burnt.fireballs,
        active_fireball(),
        fireball_key(),
        n,
        n,
    );
    lemma_changed_and_filtered(
        world.enemies,
        burnt.enemies,
        |e: EnemyEntity| true,
        enemy_key(),
        n,
        n,
    );
    lemma_kept(world.plants, plant_key(), n, n);
    lemma_kept(world.seeds, seed_key(), n, n);
    lemma_kept(world.particles, particle_key(), n, n);
    lemma_evolution_keeps_valid(world, post, FreshIds::none(n));
}

/// Applying damage never takes the counter of identifiers back, and keeps
/// a valid world valid as long as the counter has not run out.
pub proof fn lemma_damage_keeps_valid(world: WorldView)
    ensures
        world.after_damage().ids_next >= world.ids_next,
        world.wf() && world.after_damage().ids_next < u64::MAX ==> world.after_damage().wf(),
{
    let post = world.after_damage();
    let n = world.ids_next;
    let m = post.ids_next;
    if world.wf() && m < u64::MAX {
        let blows = blow_positions(
            world.enemies,
            world.damage_enemy_events,
            world.damage_enemy_events.len(),
        );
        lemma_changed_and_filtered(
            world.plants,
            hit_plants(world.plants, world.damage_plant_events),
            living_plant(),
            plant_key(),
            n,
            n,
        );
        lemma_changed_and_filtered(
            world.enemies,
            hit_enemies(world.enemies, world.damage_enemy_events),
            living_enemy(),
            enemy_key(),
            n,
            n,
        );
        lemma_kept(world.fireballs, fireball_key(), n, n);
        lemma_kept(world.seeds, seed_key(), n, n);
        lemma_kept(world.particles, particle_key(), n, n);
        lemma_append_fresh(
            world.particles,
            world.particles,
            stars(blows, n),
            particle_key(),
            n,
            m,
        );
        lemma_evolution_keeps_valid(
            world,
            post,
            FreshIds {
                plants: (n, n),
                enemies: (n, n),
                fireballs: (n, n),
                seeds: (n, n),
                particles: (n, m),
            },
        );
    }
}

/// The seeds that fly on are picked from the seeds before the flight.
proof fn lemma_seed_moves_pick(seeds: Seq<SeedView>, count: nat)
    requires
        ascending(seeds, seed_key()),
        count <= seeds.len(),
    ensures
        picked_from(spec_seed_moves(seeds, count).seeds, seeds, seed_key(), count as int),
    decreases count,
{
    if count == 0 {
        lemma_picked_none(seeds, seed_key());
    } else {
        lemma_seed_moves_pick(seeds, (count - 1) as nat);
        let before = spec_seed_moves(seeds, (count - 1) as nat);
        let step = spec_seed_step(seeds[count - 1]);
        match step.kept {
            Some(kept) => {
                assert(kept.id == seeds[count - 1].id);
                lemma_picked_next(before.seeds, seeds, seed_key(), count as int, kept);
                assert(before.seeds + seq_of(step.kept) =~= before.seeds.push(kept));
            },
            None => {
                lemma_picked_next(before.seeds, seeds, seed_key(), count as int, seeds[count - 1]);
                assert(before.seeds + seq_of(step.kept) =~= before.seeds);
            },
        }
    }
}

/// The seeds that throws put into the world carry identifiers counted on
/// from `next`.
proof fn lemma_created_counts(throws: Seq<ThrowSeedView>, next: u64, count: nat)
    ensures
        ({
            let r = spec_created(throws, next, count);
            &&& r.1 >= next
            &&& r.1 < u64::MAX ==> counted_from(r.0, seed_key(), next) && r.1 == next + r.0.len()
        }),
    decreases count,
{
    if count > 0 {
        lemma_created_counts(throws, next, (count - 1) as nat);
        let r = spec_created(throws, next, count);
        let before = spec_created(throws, next, (count - 1) as nat);
        if r.1 < u64::MAX && r != before {
            assert forall|k: int| 0 <= k < r.0.len() implies seed_key()(#[trigger] r.0[k]) == next
                + k by {
                if k < before.0.len() {
                    assert(r.0[k] == before.0[k]);
                }
            }
        }
    }
}

/// The flight of the seeds never takes the counter of identifiers back,
/// and keeps a valid world valid as long as the counter has not run out.
pub proof fn lemma_seed_flight_keeps_valid(world: WorldView)
    ensures
        world.after_seed_flight().ids_next >= world.ids_next,
        world.wf() && world.after_seed_flight().ids_next < u64::MAX
            ==> world.after_seed_flight().wf(),
{
    let post = world.after_seed_flight();
    let n = world.ids_next;
    let m = post.ids_next;
    let moves = spec_seed_moves(world.seeds, world.seeds.len());
    let throws = world.throw_seed_events + moves.throw_events;
    lemma_created_counts(throws, n, throws.len());
    if world.wf() && m < u64::MAX {
        let created = spec_created(throws, n, throws.len());
        lemma_seed_moves_pick(world.seeds, world.seeds.len());
        lemma_append_fresh(moves.seeds, world.seeds, created.0, seed_key(), n, m);
        lemma_kept(world.plants, plant_key(), n, n);
        lemma_kept(world.enemies, enemy_key(), n, n);
        lemma_kept(world.fireballs, fireball_key(), n, n);
        lemma_kept(world.particles, particle_key(), m, m);
        lemma_evolution_keeps_valid(
            world,
            post,
            FreshIds {
                plants: (n, n),
                enemies: (n, n),
                fireballs: (n, n),
                seeds: (n, m),
                particles: (m, m),
            },
        );
    }
}

/// Sowing and spewing never take the counter of identifiers back, and keep
/// a valid world valid as long as the counter has not run out.
pub proof fn lemma_planting_keeps_valid(world: WorldView)
    ensures
        world.after_planting().ids_next >= world.ids_next,
        world.wf() && world.after_planting().ids_next < u64::MAX ==> world.after_planting().wf(),
{
    let post = world.after_planting();
    let n = world.ids_next;
    let m = post.ids_next;
    if world.wf() && m < u64::MAX {
        let mid = counter_after(n, world.sow_events.len());
        lemma_kept(world.plants, plant_key(), n, n);
        lemma_append_fresh(
            world.plants,
            world.plants,
            sown_plants(world.sow_events, n),
            plant_key(),
            n,
            mid,
        );
        lemma_kept(world.fireballs, fireball_key(), n, n);
        assert(all_below(world.fireballs, fireball_key(), mid));
        lemma_append_fresh(
            world.fireballs,
            world.fireballs,
            spewed_fireballs(world.spew_fire_events, mid),
            fireball_key(),
            mid,
            m,
        );
        lemma_kept(world.enemies, enemy_key(), mid, mid);
        lemma_kept(world.seeds, seed_key(), m, m);
        lemma_kept(world.particles, particle_key(), m, m);
        lemma_evolution_keeps_valid(
            world,
            post,
            FreshIds {
                plants: (n, mid),
                enemies: (mid, mid),
                fireballs: (mid, m),
                seeds: (m, m),
                particles: (m, m),
            },
        );
    }
}

/// Showing coins and smoke never takes the counter of identifiers back,
/// and keeps a valid world valid as long as the counter has not run out.
pub proof fn lemma_effects_keep_valid(world: WorldView)
    ensures
        world.after_effects().ids_next >= world.ids_next,
        world.wf() && world.after_effects().ids_next < u64::MAX ==> world.after_effects().wf(),
{
    let post = world.after_effects();
    let n = world.ids_next;
    let m = post.ids_next;
    if world.wf() && m < u64::MAX {
        let mid = counter_after(n, world.get_coin_events.len());
        let fresh = coins(world.get_coin_events, n) + smoke_puffs(world.spawn_smoke_events, mid);
        assert(post.particles =~= world.particles + fresh);
        lemma_kept(world.particles, particle_key(), n, n);
        lemma_append_fresh(world.particles, world.particles, fresh, particle_key(), n, m);
        lemma_kept(world.plants, plant_key(), n, n);
        lemma_kept(world.enemies, enemy_key(), n, n);
        lemma_kept(world.fireballs, fireball_key(), n, n);
        lemma_kept(world.seeds, seed_key(), n, n);
        lemma_evolution_keeps_valid(
            world,
            post,
            FreshIds {
                plants: (n, n),
                enemies: (n, n),
                fireballs: (n, n),
                seeds: (n, n),
                particles: (n, m),
            },
        );
    }
}

/// A tick keeps a valid world valid, whatever comes in and however the
/// rolls fall, as long as the source of identifiers has not run out when
/// the tick is over.
pub proof fn lemma_tick_keeps_valid(
    world: WorldView,
    delta: u64,
    restarts: Seq<RestartGameEvent>,
    clicks: Seq<PlayerClickEvent>,
    collisions: Seq<CollisionStarted>,
    spawn_rolls: Seq<u32>,
    ring_rolls: Seq<u32>,
)
    requires
        world.wf(),
        world.after_tick(delta, restarts, clicks, collisions, spawn_rolls, ring_rolls).ids_next
            < u64::MAX,
    ensures
        world.after_tick(delta, restarts, clicks, collisions, spawn_rolls, ring_rolls).wf(),
        world.after_tick(delta, restarts, clicks, collisions, spawn_rolls, ring_rolls).ids_next
            >= world.ids_next,
{
    assert forall|k: u64| #[trigger] world.begun().kinds_with(k) <= 1 by {
        assert(world.kinds_with(k) <= 1);
    }
    let w0 = world.begun().restarted_times(restarts.len());
    let w1 = w0.after_timers(delta, spawn_rolls);
    let w2 = w1.after_clicks(clicks);
    let w3 = w2.after_pursuit(ring_rolls);
    let w4 = w3.after_burns(collisions);
    let w5 = w4.after_damage();
    let w6 = w5.after_seed_flight();
    let w7 = w6.after_planting();
    let w8 = w7.after_sales();
    let w9 = w8.after_effects();
    lemma_restart_keeps_valid(world.begun(), restarts.len());
    lemma_timers_keep_valid(w0, delta, spawn_rolls);
    lemma_damage_keeps_valid(w4);
    lemma_seed_flight_keeps_valid(w5);
    lemma_planting_keeps_valid(w6);
    lemma_effects_keep_valid(w8);
    assert(w2.ids_next == w1.ids_next);
    assert(w3.ids_next == w2.ids_next);
    assert(w4.ids_next == w3.ids_next);
    assert(w8.ids_next == w7.ids_next);
    assert(w9.ended().ids_next == w9.ids_next);
    lemma_clicks_keep_valid(w1, clicks);
    lemma_pursuit_keeps_valid(w2, ring_rolls);
    lemma_burns_keep_valid(w3, collisions);
    lemma_sales_keep_valid(w7);
    lemma_end_keeps_valid(w9);
}

/// In a valid world no two plants share an identifier.
pub proof fn lemma_valid_plants_are_distinct(world: WorldView)
    requires
        world.wf(),
    ensures
        crate::daisy_chain::distinct_ids(world.plants),
{
    assert forall|i: int, j: int| 0 <= i < j < world.plants.len() implies (
    #[trigger] world.plants[i]).id != (#[trigger] world.plants[j]).id by {
        assert(plant_key()(world.plants[i]) < plant_key()(world.plants[j]));
    }
}

/// In a valid world no fireball is called what a rat is called.
pub proof fn lemma_valid_fireballs_name_no_rat(world: WorldView, index: int)
    requires
        world.wf(),
        0 <= index < world.fireballs.len(),
    ensures
        !crate::enemy::has_enemy(world.enemies, world.fireballs[index].id),
{
    let k = world.fireballs[index].id.0;
    assert(fireball_key()(world.fireballs[index]) == k);
    assert(has_key(world.fireballs, fireball_key(), k));
    assert(world.kinds_with(k) <= 1);
    if crate::enemy::has_enemy(world.enemies, world.fireballs[index].id) {
        let i = choose|i: int|
            0 <= i < world.enemies.len() && (#[trigger] world.enemies[i]).id
                == world.fireballs[index].id;
        assert(enemy_key()(world.enemies[i]) == k);
        assert(has_key(world.enemies, enemy_key(), k));
    }
}

/// Clicks that the balance cannot pay for change nothing but the sounds:
/// the balance stays, and no throw is queued.
pub proof fn lemma_poor_clicks_buy_nothing(world: WorldView, clicks: Seq<PlayerClickEvent>)
    requires
        world.bank_account matches Some(account) && account.balance
            < world.seed_selection.seed_type.spec_price(),
    ensures
        world.after_clicks(clicks) == (WorldView {
            sounds: world.after_clicks(clicks).sounds,
            ..world
        }),
{
    let post = world.after_clicks(clicks);
    if world.player.is_some() {
        let p = world.player.unwrap().position;
        let seed_type = world.seed_selection.seed_type;
        let balance = world.bank_account.unwrap().balance as int;
        lemma_poor_clicks(clicks, p, seed_type, world.plants, balance, clicks.len());
        assert(post.throw_seed_events =~= world.throw_seed_events);
        assert(post.balance_updates =~= world.balance_updates);
    }
}

/// With a balance below the price, no click is served and the balance
/// stays.
proof fn lemma_poor_clicks(
    clicks: Seq<PlayerClickEvent>,
    player: GridPoint,
    seed_type: crate::plant::PlantType,
    plants: Seq<PlantEntity>,
    balance: int,
    count: nat,
)
    requires
        balance < seed_type.spec_price(),
    ensures
        crate::farm::balance_after_clicks(clicks, player, seed_type, plants, balance, count)
            == balance,
        crate::farm::served_clicks(clicks, player, seed_type, plants, balance, count).len() == 0,
    decreases count,
{
    if count > 0 {
        lemma_poor_clicks(clicks, player, seed_type, plants, balance, (count - 1) as nat);
    }
}

} // verus!
