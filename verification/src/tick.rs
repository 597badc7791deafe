//! One tick of the world: its parts, and the fixed order in which they run.
//!
//! Timers run first. Then the clicks of the player are answered, the rats
//! move and bite, and fireballs burn. All damage is applied before the dead
//! are removed, and the dead are removed before seeds land, plants are sown
//! and daisy chains are looked for. The check for the end of the round comes
//! last.

use vstd::prelude::*;
use crate::burn::{active_fireball, burn_sounds, burn_stuff, smoke_at, spec_burn};
use crate::coin::{coin_sounds, coins, make_coins, GetCoinEvent};
use crate::daisy_chain::{
    balance_after_sales, form_daisy_chains, sell_daisy_chains, sold_ids, spec_daisy_chain,
    unsold_pred,
};
use crate::enemy::{
    blow_positions, cooled_all, damage_enemies, hit_enemies, pursue_plants_with, spec_pursuit,
    spec_spawned, tick_bite_cooldowns, tick_spawn_with, ticked_spawners,
};
use crate::entity::counter_after;
use crate::farm::{
    balance_after_clicks, clamp_balance, click_throws, on_player_click, refusal_sounds,
    served_clicks, BankAccount, BankAccountUpdateEvent, RestartGameEvent,
};
use crate::geometry::GridPoint;
use crate::health::{death_places, living_enemy, living_plant, remove_dead};
use crate::lifespan::{
    aged_fireball, aged_particle, lasting_fireball, lasting_particle, tick_lifespans,
};
use crate::particle::{spawn_stars, stars};
use crate::physics::CollisionStarted;
use crate::plant::{
    after_growth_fn, finishes_growing_pred, hit_plants, damage_plants, sow_plants, sow_sounds,
    sown_plants, spew_fire, spew_sounds, spewed_fireballs, tick_growth, PlantEntity, SellDaisyChainEvent,
    DAISY_CHAIN_VALUE,
};
use crate::player::{throws_view, PlayerClickEvent, PlayerEntity, ThrowSeedView};
use crate::player_animation::{animate_throw_seed, animation_after_throws, throw_sounds};
use crate::random::{draw_rolls, roll_below};
use crate::seed::{create_seeds, move_seeds, spec_created, spec_seed_moves};
use crate::smoke::{smoke_puffs, spawn_smoke};
use crate::sound::{SoundEffect, SoundRequest};
use crate::world::{WorldState, WorldView};

verus! {

/// One sound of the given kind at each of the places.
pub open spec fn sounds_at(sound: SoundEffect, places: Seq<GridPoint>) -> Seq<SoundRequest> {
    Seq::new(places.len(), |k: int| SoundRequest { sound, position: places[k] })
}

/// The sounds of growing up: one at the place of each plant.
pub open spec fn growth_sounds(grown: Seq<PlantEntity>) -> Seq<SoundRequest> {
    Seq::new(
        grown.len(),
        |k: int| SoundRequest { sound: SoundEffect::Growth, position: grown[k].position },
    )
}

/// As many balance updates as asked for.
pub open spec fn updates(count: nat) -> Seq<BankAccountUpdateEvent> {
    Seq::new(count, |k: int| BankAccountUpdateEvent)
}

/// Appends one sound of the given kind for each of the places.
pub fn append_sounds_at(queue: &mut Vec<SoundRequest>, sound: SoundEffect, places: &Vec<GridPoint>)
    ensures
        final(queue)@ == old(queue)@ + sounds_at(sound, places@),
{
    let mut i: usize = 0;
    proof {
        assert(queue@ =~= old(queue)@ + sounds_at(sound, places@.take(0)));
    }
    while i < places.len()
        invariant
            i <= places@.len(),
            queue@ == old(queue)@ + sounds_at(sound, places@.take(i as int)),
        decreases places@.len() - i,
    {
        queue.push(SoundRequest { sound, position: places[i] });
        proof {
            assert(queue@ =~= old(queue)@ + sounds_at(sound, places@.take(i + 1)));
        }
        i += 1;
    }
    proof {
        assert(places@.take(places@.len() as int) =~= places@);
    }
}

/// Appends the sound of growing up for each of the plants.
pub fn append_growth_sounds(queue: &mut Vec<SoundRequest>, grown: &Vec<PlantEntity>)
    ensures
        final(queue)@ == old(queue)@ + growth_sounds(grown@),
{
    let mut i: usize = 0;
    proof {
        assert(queue@ =~= old(queue)@ + growth_sounds(grown@.take(0)));
    }
    while i < grown.len()
        invariant
            i <= grown@.len(),
            queue@ == old(queue)@ + growth_sounds(grown@.take(i as int)),
        decreases grown@.len() - i,
    {
        queue.push(SoundRequest { sound: SoundEffect::Growth, position: grown[i].position });
        proof {
            assert(queue@ =~= old(queue)@ + growth_sounds(grown@.take(i + 1)));
        }
        i += 1;
    }
    proof {
        assert(grown@.take(grown@.len() as int) =~= grown@);
    }
}

impl WorldView {
    /// Where the player stands, if there is a player.
    pub open spec fn player_position(self) -> Option<GridPoint> {
        match self.player {
            Some(p) => Some(p.position),
            None => None,
        }
    }

    /// The world as a tick begins: the sounds and balance updates of the
    /// tick before are dropped.
    pub open spec fn begun(self) -> WorldView {
        WorldView { sounds: Seq::empty(), balance_updates: Seq::empty(), ..self }
    }

    /// The world after its timers ran for `delta` microseconds.
    ///
    /// Fireballs and particles whose time is up go; cooldowns run on;
    /// seedlings grow, and each that grew up is heard; the spawners let
    /// rats in; the animation of the player runs on.
    pub open spec fn after_timers(self, delta: u64, spawn_rolls: Seq<u32>) -> WorldView {
        let plants = self.plants.map_values(after_growth_fn(delta));
        let grown = self.plants.filter(finishes_growing_pred(delta)).map_values(
            after_growth_fn(delta),
        );
        let spawned = spec_spawned(
            self.spawners,
            cooled_all(self.enemies, delta),
            plants,
            self.ids_next,
            delta,
            spawn_rolls,
            self.spawners.len(),
        );
        WorldView {
            fireballs: self.fireballs.map_values(aged_fireball(delta)).filter(lasting_fireball()),
            particles: self.particles.map_values(aged_particle(delta)).filter(lasting_particle()),
            plants,
            enemies: spawned.0,
            ids_next: spawned.1,
            spawners: ticked_spawners(self.spawners, delta),
            player: match self.player {
                Some(p) => Some(PlayerEntity { animation: p.animation.after_tick(delta), ..p }),
                None => None,
            },
            sounds: self.sounds + growth_sounds(grown),
            ..self
        }
    }

    /// The world after the clicks of the player were answered: each click
    /// that is served costs the price of the selected seed and queues a
    /// throw; each other click is heard as a refusal. Without a player or
    /// without an account no click is answered.
    pub open spec fn after_clicks(self, clicks: Seq<PlayerClickEvent>) -> WorldView {
        match (self.bank_account, self.player) {
            (Some(account), Some(p)) => {
                let seed_type = self.seed_selection.seed_type;
                let balance = account.balance as int;
                WorldView {
                    bank_account: Some(
                        BankAccount {
                            balance: balance_after_clicks(
                                clicks,
                                p.position,
                                seed_type,
                                self.plants,
                                balance,
                                clicks.len(),
                            ) as i64,
                        },
                    ),
                    throw_seed_events: self.throw_seed_events + click_throws(
                        clicks,
                        p.position,
                        seed_type,
                        self.plants,
                        balance,
                        clicks.len(),
                    ),
                    sounds: self.sounds + refusal_sounds(
                        clicks,
                        p.position,
                        seed_type,
                        self.plants,
                        balance,
                        clicks.len(),
                    ),
                    balance_updates: self.balance_updates + updates(
                        served_clicks(
                            clicks,
                            p.position,
                            seed_type,
                            self.plants,
                            balance,
                            clicks.len(),
                        ).len(),
                    ),
                    ..self
                }
            },
            _ => self,
        }
    }

    /// The world after every rat took its step: rats that strayed are
    /// gone, and what the others ask for waits in the queues.
    pub open spec fn after_pursuit(self, ring_rolls: Seq<u32>) -> WorldView {
        let pursuit = spec_pursuit(
            self.enemies,
            self.plants,
            self.player_position(),
            ring_rolls,
            self.enemies.len(),
        );
        WorldView {
            enemies: pursuit.enemies,
            damage_plant_events: self.damage_plant_events + pursuit.damage_plant_events,
            damage_enemy_events: self.damage_enemy_events + pursuit.damage_enemy_events,
            sow_events: self.sow_events + pursuit.sow_events,
            spew_fire_events: self.spew_fire_events + pursuit.spew_events,
            sounds: self.sounds + pursuit.sounds,
            ..self
        }
    }

    /// The world after the collisions were worked off: rats are burnt,
    /// the fireballs that burnt them are gone, and smoke is asked for.
    pub open spec fn after_burns(self, collisions: Seq<CollisionStarted>) -> WorldView {
        let burnt = spec_burn(self.fireballs, self.enemies, collisions, collisions.len());
        WorldView {
            fireballs: burnt.fireballs.filter(active_fireball()),
            enemies: burnt.enemies,
            spawn_smoke_events: self.spawn_smoke_events + smoke_at(burnt.burnt),
            sounds: self.sounds + burn_sounds(burnt.burnt),
            ..self
        }
    }

    /// The world after the damage that waited was applied and the dead
    /// were removed: a star shows each blow that a rat took, and each death
    /// is heard.
    pub open spec fn after_damage(self) -> WorldView {
        let plants = hit_plants(self.plants, self.damage_plant_events);
        let enemies = hit_enemies(self.enemies, self.damage_enemy_events);
        let blows = blow_positions(
            self.enemies,
            self.damage_enemy_events,
            self.damage_enemy_events.len(),
        );
        WorldView {
            plants: plants.filter(living_plant()),
            enemies: enemies.filter(living_enemy()),
            particles: self.particles + stars(blows, self.ids_next),
            ids_next: counter_after(self.ids_next, blows.len()),
            sounds: self.sounds + sounds_at(SoundEffect::Death, death_places(plants, enemies)),
            damage_plant_events: Seq::empty(),
            damage_enemy_events: Seq::empty(),
            ..self
        }
    }

    /// The world after the seeds flew: seeds that arrived are gone and ask
    /// to be sown or thrown on; every throw that waited, of the player or
    /// of a relay, put its seed into the world; the player is seen and
    /// heard throwing.
    pub open spec fn after_seed_flight(self) -> WorldView {
        let moves = spec_seed_moves(self.seeds, self.seeds.len());
        let throws = self.throw_seed_events + moves.throw_events;
        let created = spec_created(throws, self.ids_next, throws.len());
        WorldView {
            seeds: moves.seeds + created.0,
            ids_next: created.1,
            sow_events: self.sow_events + moves.sow_events,
            player: match self.player {
                Some(p) => Some(
                    PlayerEntity {
                        animation: animation_after_throws(p.animation, throws, throws.len()),
                        ..p
                    },
                ),
                None => None,
            },
            sounds: self.sounds + match self.player {
                Some(_) => throw_sounds(throws, throws.len()),
                None => Seq::empty(),
            },
            throw_seed_events: Seq::empty(),
            ..self
        }
    }

    /// The world after the plants that waited were sown and the fire that
    /// waited was spewed.
    pub open spec fn after_planting(self) -> WorldView {
        let after_sowing = counter_after(self.ids_next, self.sow_events.len());
        WorldView {
            plants: self.plants + sown_plants(self.sow_events, self.ids_next),
            fireballs: self.fireballs + spewed_fireballs(self.spew_fire_events, after_sowing),
            ids_next: counter_after(after_sowing, 4 * self.spew_fire_events.len()),
            sounds: self.sounds + sow_sounds(self.sow_events) + spew_sounds(self.spew_fire_events),
            sow_events: Seq::empty(),
            spew_fire_events: Seq::empty(),
            ..self
        }
    }

    /// The world after the scan for a daisy chain: where three daisies are
    /// grown, the first three are sold, the price of a chain is paid in,
    /// and a coin is asked for. Without an account nothing is sold.
    pub open spec fn after_sales(self) -> WorldView {
        match (self.bank_account, spec_daisy_chain(self.plants)) {
            (Some(account), Some(chain)) => WorldView {
                plants: self.plants.filter(unsold_pred(chain.daisy_entities)),
                bank_account: Some(
                    BankAccount {
                        balance: clamp_balance(account.balance + DAISY_CHAIN_VALUE) as i64,
                    },
                ),
                balance_updates: self.balance_updates.push(BankAccountUpdateEvent),
                get_coin_events: self.get_coin_events.push(GetCoinEvent(chain.position)),
                ..self
            },
            _ => self,
        }
    }

    /// The world after the coins and the smoke that waited were shown.
    pub open spec fn after_effects(self) -> WorldView {
        let after_coins = counter_after(self.ids_next, self.get_coin_events.len());
        WorldView {
            particles: self.particles + coins(self.get_coin_events, self.ids_next) + smoke_puffs(
                self.spawn_smoke_events,
                after_coins,
            ),
            ids_next: counter_after(after_coins, self.spawn_smoke_events.len()),
            sounds: self.sounds + coin_sounds(self.get_coin_events),
            get_coin_events: Seq::empty(),
            spawn_smoke_events: Seq::empty(),
            ..self
        }
    }

    /// The world after one tick of `delta` microseconds, in which the
    /// given requests for a new round, clicks and collisions came in. The
    /// rolls settle what is left to chance: where a spawner lets its rat
    /// in, and where the offspring of a bitten pineapple is sown.
    ///
    /// A new round is started first, if one was asked for. Timers run,
    /// clicks are answered, the rats move and bite, fireballs burn. All
    /// damage is applied and the dead are removed before seeds land, plants
    /// are sown and fire is spewed, and before daisy chains are looked for.
    /// Coins and smoke show, and last the round is checked for its end.
    pub open spec fn after_tick(
        self,
        delta: u64,
        restarts: Seq<RestartGameEvent>,
        clicks: Seq<PlayerClickEvent>,
        collisions: Seq<CollisionStarted>,
        spawn_rolls: Seq<u32>,
        ring_rolls: Seq<u32>,
    ) -> WorldView {
        let started = self.begun().restarted_times(restarts.len());
        let timed = started.after_timers(delta, spawn_rolls);
        let answered = timed.after_clicks(clicks);
        let pursued = answered.after_pursuit(ring_rolls);
        let burnt = pursued.after_burns(collisions);
        let damaged = burnt.after_damage();
        let flown = damaged.after_seed_flight();
        let planted = flown.after_planting();
        let sold = planted.after_sales();
        let shown = sold.after_effects();
        shown.ended()
    }
}

impl WorldState {
    /// Begins a tick: drops the sounds and balance updates of the tick
    /// before.
    pub fn begin_tick(&mut self)
        ensures
            final(self)@ == old(self)@.begun(),
    {
        self.sounds = Vec::new();
        self.balance_updates = Vec::new();
    }

    /// Runs the timers of the world for `delta` microseconds. The spawner
    /// at index `i` lets its rat in where the roll at index `i` says.
    pub fn run_timers(&mut self, delta: u64, spawn_rolls: &Vec<u32>)
        ensures
            final(self)@ == old(self)@.after_timers(delta, spawn_rolls@),
    {
        tick_lifespans(&mut self.fireballs, &mut self.particles, delta);
        tick_bite_cooldowns(&mut self.enemies, delta);
        let grown = tick_growth(&mut self.plants, delta);
        append_growth_sounds(&mut self.sounds, &grown);
        tick_spawn_with(
            &mut self.spawners,
            &mut self.enemies,
            &self.plants,
            &mut self.ids,
            delta,
            spawn_rolls,
        );
        if let Some(mut p) = self.player {
            p.animation.update_timer(delta);
            self.player = Some(p);
        }
        proof {
            let want = old(self)@.after_timers(delta, spawn_rolls@);
            assert(self@ == want);
        }
    }

    /// Answers the clicks of the player, in order.
    pub fn answer_clicks(&mut self, clicks: &Vec<PlayerClickEvent>)
        ensures
            final(self)@ == old(self)@.after_clicks(clicks@),
    {
        if let Some(mut account) = self.bank_account {
            if let Some(p) = self.player {
                let ghost throws_before = self.throw_seed_events@;
                let mut outcome = on_player_click(
                    clicks,
                    Some(p.position),
                    self.seed_selection.seed_type,
                    &self.plants,
                    &mut account,
                );
                let ghost new_throws = outcome.throws@;
                self.bank_account = Some(account);
                self.throw_seed_events.append(&mut outcome.throws);
                self.sounds.append(&mut outcome.sounds);
                self.balance_updates.append(&mut outcome.balance_updates);
                proof {
                    let want = old(self)@.after_clicks(clicks@);
                    assert(throws_view(throws_before + new_throws) =~= throws_view(throws_before)
                        + throws_view(new_throws));
                    assert(self@.balance_updates =~= want.balance_updates);
                    assert(self@ == want);
                }
            }
        }
    }

    /// Lets every rat take its step. The rat at index `i` uses the roll at
    /// index `i`.
    pub fn run_pursuit(&mut self, ring_rolls: &Vec<u32>)
        ensures
            final(self)@ == old(self)@.after_pursuit(ring_rolls@),
    {
        let at = match self.player {
            Some(p) => Some(p.position),
            None => None,
        };
        let mut pursuit = pursue_plants_with(&mut self.enemies, &self.plants, at, ring_rolls);
        self.damage_plant_events.append(&mut pursuit.damage_plant_events);
        self.damage_enemy_events.append(&mut pursuit.damage_enemy_events);
        self.sow_events.append(&mut pursuit.sow_events);
        self.spew_fire_events.append(&mut pursuit.spew_events);
        self.sounds.append(&mut pursuit.sounds);
    }

    /// Works the collisions off that the physics reported.
    pub fn run_burns(&mut self, collisions: &Vec<CollisionStarted>)
        ensures
            final(self)@ == old(self)@.after_burns(collisions@),
    {
        let mut outcome = burn_stuff(&mut self.fireballs, &mut self.enemies, collisions);
        self.spawn_smoke_events.append(&mut outcome.smoke_events);
        self.sounds.append(&mut outcome.sounds);
    }

    /// Applies the damage that waits in the queues, and removes the dead.
    pub fn run_damage(&mut self)
        ensures
            final(self)@ == old(self)@.after_damage(),
    {
        damage_plants(&mut self.plants, &self.damage_plant_events);
        let blows = damage_enemies(&mut self.enemies, &self.damage_enemy_events);
        spawn_stars(&mut self.particles, &mut self.ids, &blows);
        let deaths = remove_dead(&mut self.plants, &mut self.enemies);
        append_sounds_at(&mut self.sounds, SoundEffect::Death, &deaths);
        self.damage_plant_events = Vec::new();
        self.damage_enemy_events = Vec::new();
    }

    /// Lets the seeds fly, and puts a seed into the world for every throw
    /// that waits in the queue.
    pub fn run_seed_flight(&mut self)
        ensures
            final(self)@ == old(self)@.after_seed_flight(),
    {
        let ghost throws_before = self.throw_seed_events@;
        let ghost seeds_before = self.seeds@;
        let mut moves = move_seeds(&mut self.seeds);
        let ghost seeds_kept = self.seeds@;
        let ghost new_throws = moves.throw_events@;
        self.sow_events.append(&mut moves.sow_events);
        self.throw_seed_events.append(&mut moves.throw_events);
        proof {
            assert(throws_view(throws_before + new_throws) =~= throws_view(throws_before)
                + throws_view(new_throws));
        }
        if let Some(mut p) = self.player {
            let mut sounds = animate_throw_seed(&mut p.animation, &self.throw_seed_events);
            self.player = Some(p);
            self.sounds.append(&mut sounds);
        }
        create_seeds(&mut self.seeds, &mut self.ids, &self.throw_seed_events);
        self.throw_seed_events = Vec::new();
        proof {
            let want = old(self)@.after_seed_flight();
            assert(throws_view(self.throw_seed_events@) =~= Seq::<ThrowSeedView>::empty());
            assert(self@.sounds =~= want.sounds);
            assert(self@ == want);
        }
    }

    /// Sows the plants and spews the fire that wait in the queues.
    pub fn run_planting(&mut self)
        ensures
            final(self)@ == old(self)@.after_planting(),
    {
        let mut sowing = sow_plants(&mut self.plants, &mut self.ids, &self.sow_events);
        let mut spewing = spew_fire(&mut self.fireballs, &mut self.ids, &self.spew_fire_events);
        self.sounds.append(&mut sowing);
        self.sounds.append(&mut spewing);
        self.sow_events = Vec::new();
        self.spew_fire_events = Vec::new();
    }

    /// Scans the plants for a daisy chain and sells it.
    pub fn run_sales(&mut self)
        ensures
            final(self)@ == old(self)@.after_sales(),
    {
        if let Some(mut account) = self.bank_account {
            if let Some(event) = form_daisy_chains(&self.plants) {
                let ghost chain = event@;
                let mut events: Vec<SellDaisyChainEvent> = Vec::new();
                events.push(event);
                let mut outcome = sell_daisy_chains(&mut self.plants, &mut account, &events);
                self.bank_account = Some(account);
                self.balance_updates.push(BankAccountUpdateEvent);
                self.get_coin_events.append(&mut outcome.coins);
                proof {
                    let want = old(self)@.after_sales();
                    assert(sold_ids(events@, 0) =~= Seq::empty());
                    assert(sold_ids(events@, 1) =~= chain.daisy_entities);
                    assert(balance_after_sales(old(self).bank_account.unwrap().balance as int, 0)
                        == old(self).bank_account.unwrap().balance);
                    assert(self@.get_coin_events =~= want.get_coin_events);
                    assert(self@ == want);
                }
            }
        }
    }

    /// Shows the coins and the smoke that wait in the queues.
    pub fn run_effects(&mut self)
        ensures
            final(self)@ == old(self)@.after_effects(),
    {
        let mut sounds = make_coins(&mut self.particles, &mut self.ids, &self.get_coin_events);
        spawn_smoke(&mut self.particles, &mut self.ids, &self.spawn_smoke_events);
        self.sounds.append(&mut sounds);
        self.get_coin_events = Vec::new();
        self.spawn_smoke_events = Vec::new();
    }

    /// Advances the world by one tick of `delta` microseconds, with the
    /// given rolls for what is left to chance: the spawner at index `i`
    /// uses the spawn roll at index `i`, the rat at index `i` the ring roll
    /// at index `i`, and 0 where the rolls run out.
    pub fn tick_with(
        &mut self,
        delta: u64,
        restarts: &Vec<RestartGameEvent>,
        clicks: &Vec<PlayerClickEvent>,
        collisions: &Vec<CollisionStarted>,
        spawn_rolls: &Vec<u32>,
        ring_rolls: &Vec<u32>,
    )
        ensures
            final(self)@ == old(self)@.after_tick(
                delta,
                restarts@,
                clicks@,
                collisions@,
                spawn_rolls@,
                ring_rolls@,
            ),
    {
        self.begin_tick();
        self.restart_game(restarts);
        self.run_timers(delta, spawn_rolls);
        self.answer_clicks(clicks);
        self.run_pursuit(ring_rolls);
        self.run_burns(collisions);
        self.run_damage();
        self.run_seed_flight();
        self.run_planting();
        self.run_sales();
        self.run_effects();
        self.end_game();
    }

    /// Advances the world by one tick of `delta` microseconds. What is
    /// left to chance is drawn at random: the outcome is that of
    /// [`WorldState::tick_with`] for some rolls.
    pub fn tick(
        &mut self,
        delta: u64,
        restarts: &Vec<RestartGameEvent>,
        clicks: &Vec<PlayerClickEvent>,
        collisions: &Vec<CollisionStarted>,
    )
        ensures
            exists|spawn_rolls: Seq<u32>, ring_rolls: Seq<u32>|
                final(self)@ == #[trigger] old(self)@.after_tick(
                    delta,
                    restarts@,
                    clicks@,
                    collisions@,
                    spawn_rolls,
                    ring_rolls,
                ),
    {
        let mut spawn_rolls: Vec<u32> = Vec::new();
        let mut i: usize = 0;
        while i < self.spawners.len()
            invariant
                *self == *old(self),
            decreases self.spawners@.len() - i,
        {
            let r = roll_below(self.spawners[i].spawner.spawn_height);
            spawn_rolls.push(r);
            i += 1;
        }
        let room: usize = if self.enemies.len() <= usize::MAX - self.spawners.len() {
            self.enemies.len() + self.spawners.len()
        } else {
            usize::MAX
        };
        let ring_rolls = draw_rolls(room, crate::enemy::RING_PLACES);
        self.tick_with(delta, restarts, clicks, collisions, &spawn_rolls, &ring_rolls);
    }
}

/// When a tick is over, no request waits: whatever was asked for during
/// the tick, or waited before it, was served within it.
pub proof fn lemma_tick_drains_queues(
    world: WorldView,
    delta: u64,
    restarts: Seq<RestartGameEvent>,
    clicks: Seq<PlayerClickEvent>,
    collisions: Seq<CollisionStarted>,
    spawn_rolls: Seq<u32>,
    ring_rolls: Seq<u32>,
)
    ensures
        world.after_tick(delta, restarts, clicks, collisions, spawn_rolls, ring_rolls).queues_empty(),
{
    let w4 = world.begun().restarted_times(restarts.len()).after_timers(
        delta,
        spawn_rolls,
    ).after_clicks(clicks).after_pursuit(ring_rolls).after_burns(collisions);
    let w5 = w4.after_damage();
    let w6 = w5.after_seed_flight();
    let w7 = w6.after_planting();
    let w8 = w7.after_sales();
    let w9 = w8.after_effects();
    assert(w5.damage_plant_events.len() == 0 && w5.damage_enemy_events.len() == 0);
    assert(w6.throw_seed_events.len() == 0);
    assert(w7.sow_events.len() == 0 && w7.spew_fire_events.len() == 0);
    assert(w8.throw_seed_events.len() == 0);
    assert(w9.get_coin_events.len() == 0 && w9.spawn_smoke_events.len() == 0);
    assert(w9.queues_empty());
}

} // verus!
