//! The world: everything that lives in a round, and the queues through
//! which the parts of a tick hand their requests on.

use vstd::prelude::*;
use crate::coin::GetCoinEvent;
use crate::daisy_chain::{grown_daisies, mature_daisies};
use crate::enemy::{DamageEnemyEvent, EnemyEntity, SpawnerEntity};
use crate::entity::IdSource;
use crate::farm::{
    farm, fresh_farm, BankAccount, BankAccountUpdateEvent, RestartGameEvent, LOSING_BALANCE, STARTING_BALANCE,
    WINNING_BALANCE,
};
use crate::particle::ParticleEntity;
use crate::plant::{
    DamagePlantEvent, FireballEntity, PlantEntity, PlantType, SeedSelection, SowPlantEvent,
    SpewFireEvent, DAISY_CHAIN_LENGTH,
};
use crate::player::{
    fresh_player, player, throws_view, PlayerEntity, ThrowSeedEvent, ThrowSeedView,
};
use crate::seed::{seeds_view, SeedEntity, SeedView};
use crate::smoke::SpawnSmokeEvent;
use crate::sound::SoundRequest;

verus! {

/// How a round ended.
#[derive(Clone, Copy, Debug, PartialEq, Eq, Structural)]
pub enum GameResult {
    /// The farm earned enough.
    Won,
    /// The farm ran out of money, with no daisy chain in sight.
    Lost,
}

/// The world of the game.
///
/// Plants, rats, fireballs, seeds, particles and the notice of how the
/// round ended belong to the round and go when it is started anew. The
/// player, the farm with its account and spawners, and the seed selection
/// stay. The queues hold requests between the parts of a tick. Sounds and
/// balance updates are for the caller, and are set anew with each tick.
#[derive(Debug)]
pub struct WorldState {
    pub ids: IdSource,
    pub player: Option<PlayerEntity>,
    pub bank_account: Option<BankAccount>,
    pub seed_selection: SeedSelection,
    pub spawners: Vec<SpawnerEntity>,
    pub plants: Vec<PlantEntity>,
    pub enemies: Vec<EnemyEntity>,
    pub fireballs: Vec<FireballEntity>,
    pub seeds: Vec<SeedEntity>,
    pub particles: Vec<ParticleEntity>,
    pub end_game: Option<GameResult>,
    pub throw_seed_events: Vec<ThrowSeedEvent>,
    pub sow_events: Vec<SowPlantEvent>,
    pub damage_plant_events: Vec<DamagePlantEvent>,
    pub damage_enemy_events: Vec<DamageEnemyEvent>,
    pub spew_fire_events: Vec<SpewFireEvent>,
    pub spawn_smoke_events: Vec<SpawnSmokeEvent>,
    pub get_coin_events: Vec<GetCoinEvent>,
    pub sounds: Vec<SoundRequest>,
    pub balance_updates: Vec<BankAccountUpdateEvent>,
}

/// The world, as mathematical values.
pub struct WorldView {
    pub ids_next: u64,
    pub player: Option<PlayerEntity>,
    pub bank_account: Option<BankAccount>,
    pub seed_selection: SeedSelection,
    pub spawners: Seq<SpawnerEntity>,
    pub plants: Seq<PlantEntity>,
    pub enemies: Seq<EnemyEntity>,
    pub fireballs: Seq<FireballEntity>,
    pub seeds: Seq<SeedView>,
    pub particles: Seq<ParticleEntity>,
    pub end_game: Option<GameResult>,
    pub throw_seed_events: Seq<ThrowSeedView>,
    pub sow_events: Seq<SowPlantEvent>,
    pub damage_plant_events: Seq<DamagePlantEvent>,
    pub damage_enemy_events: Seq<DamageEnemyEvent>,
    pub spew_fire_events: Seq<SpewFireEvent>,
    pub spawn_smoke_events: Seq<SpawnSmokeEvent>,
    pub get_coin_events: Seq<GetCoinEvent>,
    pub sounds: Seq<SoundRequest>,
    pub balance_updates: Seq<BankAccountUpdateEvent>,
}

impl View for WorldState {
    type V = WorldView;

    open spec fn view(&self) -> WorldView {
        WorldView {
            ids_next: self.ids.next,
            player: self.player,
            bank_account: self.bank_account,
            seed_selection: self.seed_selection,
            spawners: self.spawners@,
            plants: self.plants@,
            enemies: self.enemies@,
            fireballs: self.fireballs@,
            seeds: seeds_view(self.seeds@),
            particles: self.particles@,
            end_game: self.end_game,
            throw_seed_events: throws_view(self.throw_seed_events@),
            sow_events: self.sow_events@,
            damage_plant_events: self.damage_plant_events@,
            damage_enemy_events: self.damage_enemy_events@,
            spew_fire_events: self.spew_fire_events@,
            spawn_smoke_events: self.spawn_smoke_events@,
            get_coin_events: self.get_coin_events@,
            sounds: self.sounds@,
            balance_updates: self.balance_updates@,
        }
    }
}

impl WorldView {
    /// Number of things in the world that belong to the round.
    pub open spec fn round_scoped(self) -> nat {
        self.plants.len() + self.enemies.len() + self.fireballs.len() + self.seeds.len()
            + self.particles.len() + if self.end_game.is_some() {
            1nat
        } else {
            0nat
        }
    }

    /// No request waits in a queue.
    pub open spec fn queues_empty(self) -> bool {
        &&& self.throw_seed_events.len() == 0
        &&& self.sow_events.len() == 0
        &&& self.damage_plant_events.len() == 0
        &&& self.damage_enemy_events.len() == 0
        &&& self.spew_fire_events.len() == 0
        &&& self.spawn_smoke_events.len() == 0
        &&& self.get_coin_events.len() == 0
    }

    /// The world with nothing left that belongs to the round, and no
    /// request waiting.
    pub open spec fn cleared(self) -> WorldView {
        WorldView {
            plants: Seq::empty(),
            enemies: Seq::empty(),
            fireballs: Seq::empty(),
            seeds: Seq::empty(),
            particles: Seq::empty(),
            end_game: None,
            throw_seed_events: Seq::empty(),
            sow_events: Seq::empty(),
            damage_plant_events: Seq::empty(),
            damage_enemy_events: Seq::empty(),
            spew_fire_events: Seq::empty(),
            spawn_smoke_events: Seq::empty(),
            get_coin_events: Seq::empty(),
            ..self
        }
    }

    /// The world as a new round starts in it: the account is back at the
    /// starting balance, which is told, and nothing of the old round is
    /// left. A world without an account is left as it is.
    pub open spec fn restarted(self) -> WorldView {
        match self.bank_account {
            None => self,
            Some(_) => WorldView {
                bank_account: Some(BankAccount { balance: STARTING_BALANCE }),
                balance_updates: self.balance_updates.push(BankAccountUpdateEvent),
                ..self.cleared()
            },
        }
    }

    /// The world after `count` requests for a new round.
    pub open spec fn restarted_times(self, count: nat) -> WorldView
        decreases count,
    {
        if count == 0 {
            self
        } else {
            self.restarted_times((count - 1) as nat).restarted()
        }
    }

    /// The world once the round was checked for its end: where the round
    /// is over, everything that belongs to it goes and the result is put
    /// up. A world without an account is left as it is.
    pub open spec fn ended(self) -> WorldView {
        match self.bank_account {
            None => self,
            Some(account) => match verdict(account.balance as int, self.plants) {
                None => self,
                Some(result) => WorldView {
                    plants: Seq::empty(),
                    enemies: Seq::empty(),
                    fireballs: Seq::empty(),
                    seeds: Seq::empty(),
                    particles: Seq::empty(),
                    end_game: Some(result),
                    ..self
                },
            },
        }
    }
}

/// How the round stands with `balance` coins and the given plants: lost
/// where no coin is left and fewer grown daisies stand than make a chain;
/// won where the winning balance is reached; open otherwise.
pub open spec fn verdict(balance: int, plants: Seq<PlantEntity>) -> Option<GameResult> {
    if balance <= LOSING_BALANCE {
        if mature_daisies(plants).len() >= DAISY_CHAIN_LENGTH {
            None
        } else {
            Some(GameResult::Lost)
        }
    } else if balance >= WINNING_BALANCE {
        Some(GameResult::Won)
    } else {
        None
    }
}

/// How the round stands with `balance` coins and the given plants.
pub fn check_end_conditions(balance: i64, plants: &Vec<PlantEntity>) -> (result: Option<GameResult>)
    ensures
        result == verdict(balance as int, plants@),
{
    if balance <= LOSING_BALANCE {
        let daisies = grown_daisies(plants);
        if daisies.len() >= DAISY_CHAIN_LENGTH {
            None
        } else {
            Some(GameResult::Lost)
        }
    } else if balance >= WINNING_BALANCE {
        Some(GameResult::Won)
    } else {
        None
    }
}

/// The world as the game starts: the farm with its starting balance and
/// its spawner, the player, daisies selected, and nothing else.
pub open spec fn fresh_world() -> WorldView {
    WorldView {
        ids_next: 0,
        player: Some(fresh_player()),
        bank_account: Some(fresh_farm().bank_account),
        seed_selection: SeedSelection { seed_type: PlantType::Daisy },
        spawners: seq![fresh_farm().spawner],
        plants: Seq::empty(),
        enemies: Seq::empty(),
        fireballs: Seq::empty(),
        seeds: Seq::empty(),
        particles: Seq::empty(),
        end_game: None,
        throw_seed_events: Seq::empty(),
        sow_events: Seq::empty(),
        damage_plant_events: Seq::empty(),
        damage_enemy_events: Seq::empty(),
        spew_fire_events: Seq::empty(),
        spawn_smoke_events: Seq::empty(),
        get_coin_events: Seq::empty(),
        sounds: Seq::empty(),
        balance_updates: Seq::empty(),
    }
}

/// The world as the game starts. It is valid, and nothing of a round is
/// in it.
pub fn spawn_level() -> (world: WorldState)
    ensures
        world@ == fresh_world(),
        world@.wf(),
        world@.round_scoped() == 0,
        world@.queues_empty(),
{
    let f = farm();
    let mut spawners: Vec<SpawnerEntity> = Vec::new();
    spawners.push(f.spawner);
    let world = WorldState {
        ids: IdSource::new(),
        player: Some(player()),
        bank_account: Some(f.bank_account),
        seed_selection: SeedSelection { seed_type: PlantType::Daisy },
        spawners,
        plants: Vec::new(),
        enemies: Vec::new(),
        fireballs: Vec::new(),
        seeds: Vec::new(),
        particles: Vec::new(),
        end_game: None,
        throw_seed_events: Vec::new(),
        sow_events: Vec::new(),
        damage_plant_events: Vec::new(),
        damage_enemy_events: Vec::new(),
        spew_fire_events: Vec::new(),
        spawn_smoke_events: Vec::new(),
        get_coin_events: Vec::new(),
        sounds: Vec::new(),
        balance_updates: Vec::new(),
    };
    proof {
        assert(world@.spawners =~= fresh_world().spawners);
        assert(world@.seeds =~= fresh_world().seeds);
        assert(world@.throw_seed_events =~= fresh_world().throw_seed_events);
        assert(world@ == fresh_world());
        crate::validity::lemma_empty_world_is_valid(world@);
    }
    world
}

impl WorldState {
    /// Takes everything out of the world that belongs to the round.
    fn despawn_round(&mut self)
        ensures
            final(self)@ == (WorldView {
                plants: Seq::empty(),
                enemies: Seq::empty(),
                fireballs: Seq::empty(),
                seeds: Seq::empty(),
                particles: Seq::empty(),
                end_game: None,
                ..old(self)@
            }),
    {
        self.plants = Vec::new();
        self.enemies = Vec::new();
        self.fireballs = Vec::new();
        self.seeds = Vec::new();
        self.particles = Vec::new();
        self.end_game = None;
        proof {
            assert(seeds_view(self.seeds@) =~= Seq::<SeedView>::empty());
        }
    }

    /// Empties the queues.
    fn drop_requests(&mut self)
        ensures
            final(self)@ == (WorldView {
                throw_seed_events: Seq::empty(),
                sow_events: Seq::empty(),
                damage_plant_events: Seq::empty(),
                damage_enemy_events: Seq::empty(),
                spew_fire_events: Seq::empty(),
                spawn_smoke_events: Seq::empty(),
                get_coin_events: Seq::empty(),
                ..old(self)@
            }),
    {
        self.throw_seed_events = Vec::new();
        self.sow_events = Vec::new();
        self.damage_plant_events = Vec::new();
        self.damage_enemy_events = Vec::new();
        self.spew_fire_events = Vec::new();
        self.spawn_smoke_events = Vec::new();
        self.get_coin_events = Vec::new();
        proof {
            assert(throws_view(self.throw_seed_events@) =~= Seq::<ThrowSeedView>::empty());
        }
    }

    /// Starts a new round for each request: the balance goes back to the
    /// starting balance, and everything of the old round goes, requests
    /// that wait in a queue too.
    pub fn restart_game(&mut self, events: &Vec<RestartGameEvent>)
        ensures
            final(self)@ == old(self)@.restarted_times(events@.len()),
    {
        let mut i: usize = 0;
        while i < events.len()
            invariant
                i <= events@.len(),
                self@ == old(self)@.restarted_times(i as nat),
            decreases events@.len() - i,
        {
            if self.bank_account.is_some() {
                self.bank_account = Some(BankAccount { balance: STARTING_BALANCE });
                self.balance_updates.push(BankAccountUpdateEvent);
                self.despawn_round();
                self.drop_requests();
            }
            i += 1;
        }
    }

    /// Checks whether the round is over. If it is, everything that belongs
    /// to the round goes, and the result is put up in its place.
    pub fn end_game(&mut self)
        ensures
            final(self)@ == old(self)@.ended(),
    {
        if let Some(account) = self.bank_account {
            if let Some(result) = check_end_conditions(account.balance, &self.plants) {
                self.despawn_round();
                self.end_game = Some(result);
            }
        }
    }
}

/// After a restart the balance is the starting balance, nothing that
/// belongs to a round is left, and no request waits.
pub proof fn lemma_restart_resets(world: WorldView, count: nat)
    requires
        world.bank_account.is_some(),
        count >= 1,
    ensures
        world.restarted_times(count).bank_account == Some(BankAccount { balance: STARTING_BALANCE }),
        world.restarted_times(count).round_scoped() == 0,
        world.restarted_times(count).queues_empty(),
        world.restarted_times(count).player == world.player,
        world.restarted_times(count).spawners == world.spawners,
        world.restarted_times(count).seed_selection == world.seed_selection,
        world.restarted_times(count).ids_next == world.ids_next,
    decreases count,
{
    if count > 1 {
        lemma_restart_resets(world, (count - 1) as nat);
    } else {
        assert(world.restarted_times(0) == world);
    }
}

/// A round that ends leaves nothing behind but its result, and the
/// account is left alone. A round is won only at or above the winning
/// balance, and a round with coins left below it goes on as it is.
pub proof fn lemma_end_of_round(world: WorldView, account: BankAccount)
    requires
        world.bank_account == Some(account),
    ensures
        world.ended().bank_account == world.bank_account,
        verdict(account.balance as int, world.plants).is_some() ==> world.ended().round_scoped()
            == 1 && world.ended().end_game == verdict(account.balance as int, world.plants),
        verdict(account.balance as int, world.plants).is_none() ==> world.ended() == world,
        verdict(account.balance as int, world.plants) == Some(GameResult::Won)
            <==> account.balance >= WINNING_BALANCE,
        verdict(account.balance as int, world.plants) == Some(GameResult::Lost) <==> (
        account.balance <= LOSING_BALANCE && mature_daisies(world.plants).len()
            < DAISY_CHAIN_LENGTH),
{
}

} // verus!
