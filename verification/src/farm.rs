//! The farm: its bank account, the purchase of seeds, and how a round ends.

use vstd::prelude::*;
use crate::enemy::{enemy_spawner, SpawnerEntity, SPAWN_INTERVAL, EnemySpawner, SpawnTimer};
use crate::geometry::GridPoint;
use crate::plant::{
    plant_collision_check, plant_covers, PlantEntity, PlantType, GNOME_THROW_RADIUS_PX,
};
use crate::player::{
    is_throw_path, throw_path, throw_reachable, throw_route, throws_view, PlayerClickEvent,
    ThrowSeedEvent, ThrowSeedView, PLAYER_THROW_RADIUS_PX,
};
use crate::sequence::{lemma_filter_next, lemma_filter_none, lemma_take_all};
use crate::sound::{SoundEffect, SoundRequest};
use crate::timer::{fresh_timer, TimerMode};

verus! {

pub const TILE_SIZE_PX: i32 = 128;

/// Width of the farm, in tiles.
pub const FARM_WIDTH_TILES: i32 = 10;

/// Height of the farm, in tiles.
pub const FARM_HEIGHT_TILES: i32 = 8;

/// Width of the farm, in pixels.
pub const FARM_WIDTH_PX: i32 = 1280;

/// Height of the farm, in pixels.
pub const FARM_HEIGHT_PX: i32 = 1024;

/// Height of the stretch at the farm's edge along which rats appear: nine
/// tenths of the farm's height.
pub const FARM_SPAWN_HEIGHT_PX: u32 = 921;

/// Coins the farm starts a round with.
pub const STARTING_BALANCE: i64 = 10;

/// With this many coins the round is won.
pub const WINNING_BALANCE: i64 = 150;

/// With this many coins or fewer, and no daisy chain in sight, the round is
/// lost.
pub const LOSING_BALANCE: i64 = 0;

/// What makes an entity the farm.
#[derive(Clone, Copy, Debug, PartialEq, Eq, Structural)]
pub struct Farm;

/// The coins of the farm.
#[derive(Clone, Copy, Debug, PartialEq, Eq, Structural)]
pub struct BankAccount {
    pub balance: i64,
}

/// Tells that the balance changed.
#[derive(Clone, Copy, Debug, PartialEq, Eq, Structural)]
pub struct BankAccountUpdateEvent;

/// Asks for a new round.
#[derive(Clone, Copy, Debug, PartialEq, Eq, Structural)]
pub struct RestartGameEvent;

/// The nearest value to `v` that a balance can hold.
pub open spec fn clamp_balance(v: int) -> int {
    if v < i64::MIN {
        i64::MIN as int
    } else if v > i64::MAX {
        i64::MAX as int
    } else {
        v
    }
}

impl BankAccount {
    /// An account holding `balance` coins.
    pub fn new(balance: i64) -> (account: BankAccount)
        ensures
            account.balance == balance,
    {
        BankAccount { balance }
    }

    pub fn balance(&self) -> (b: i64)
        ensures
            b == self.balance,
    {
        self.balance
    }

    /// Takes `amount` coins out. The balance stops at the ends of its range.
    pub fn deduct(&mut self, amount: i64)
        ensures
            final(self).balance == clamp_balance(old(self).balance - amount),
    {
        let wide: i128 = self.balance as i128 - amount as i128;
        self.balance = if wide < i64::MIN as i128 {
            i64::MIN
        } else if wide > i64::MAX as i128 {
            i64::MAX
        } else {
            wide as i64
        };
    }

    /// Pays `amount` coins in. The balance stops at the ends of its range.
    pub fn credit(&mut self, amount: i64)
        ensures
            final(self).balance == clamp_balance(old(self).balance + amount),
    {
        let wide: i128 = self.balance as i128 + amount as i128;
        self.balance = if wide < i64::MIN as i128 {
            i64::MIN
        } else if wide > i64::MAX as i128 {
            i64::MAX
        } else {
            wide as i64
        };
    }
}

impl Default for BankAccount {
    fn default() -> (account: BankAccount)
        ensures
            account.balance == 0,
    {
        BankAccount { balance: 0 }
    }
}

/// The farm as a round starts: its bank account and the place where the
/// rats come in.
#[derive(Clone, Copy, Debug, PartialEq, Eq, Structural)]
pub struct FarmEntity {
    pub farm: Farm,
    pub bank_account: BankAccount,
    pub spawner: SpawnerEntity,
}

/// A farm with the starting balance, and a spawner in the middle of its
/// right edge.
pub open spec fn fresh_farm() -> FarmEntity {
    FarmEntity {
        farm: Farm,
        bank_account: BankAccount { balance: STARTING_BALANCE },
        spawner: SpawnerEntity {
            position: GridPoint { x: 640, y: 0 },
            spawner: EnemySpawner { spawn_height: FARM_SPAWN_HEIGHT_PX },
            timer: SpawnTimer(fresh_timer(SPAWN_INTERVAL, TimerMode::Repeating)),
        },
    }
}

/// A farm with the starting balance, and a spawner in the middle of its
/// right edge.
pub fn farm() -> (f: FarmEntity)
    ensures
        f == fresh_farm(),
{
    FarmEntity {
        farm: Farm,
        bank_account: BankAccount { balance: STARTING_BALANCE },
        spawner: enemy_spawner(GridPoint { x: FARM_WIDTH_PX / 2, y: 0 }, FARM_SPAWN_HEIGHT_PX),
    }
}

/// Tells the grown gnomes from the other plants.
pub open spec fn grown_gnome_pred() -> spec_fn(PlantEntity) -> bool {
    |p: PlantEntity| p.grown_gnome()
}

/// The position of a plant.
pub open spec fn position_of() -> spec_fn(PlantEntity) -> GridPoint {
    |p: PlantEntity| p.position
}

/// The positions of the grown gnomes, in the order of the plants: the
/// places from which a seed is thrown on.
pub open spec fn gnome_relays(plants: Seq<PlantEntity>) -> Seq<GridPoint> {
    plants.filter(grown_gnome_pred()).map_values(position_of())
}

/// The positions of the grown gnomes, in the order of the plants.
pub fn gnome_positions(plants: &Vec<PlantEntity>) -> (relays: Vec<GridPoint>)
    ensures
        relays@ == gnome_relays(plants@),
{
    let mut relays: Vec<GridPoint> = Vec::new();
    let mut i: usize = 0;
    proof {
        lemma_take_all(plants@);
        lemma_filter_none(plants@, grown_gnome_pred());
        assert(relays@ =~= gnome_relays(plants@.take(0)));
    }
    while i < plants.len()
        invariant
            i <= plants@.len(),
            relays@ == gnome_relays(plants@.take(i as int)),
        decreases plants@.len() - i,
    {
        proof {
            lemma_filter_next(plants@, i as int, grown_gnome_pred());
        }
        if plants[i].growth.is_none() && plants[i].plant.plant_type == PlantType::Gnome {
            relays.push(plants[i].position);
        }
        proof {
            assert(relays@ =~= gnome_relays(plants@.take(i + 1)));
        }
        i += 1;
    }
    proof {
        lemma_take_all(plants@);
    }
    relays
}

/// Some plant, grown or not, covers `spot` with its circle.
pub open spec fn spot_taken(plants: Seq<PlantEntity>, spot: GridPoint) -> bool {
    exists|i: int|
        0 <= i < plants.len() && plant_covers(
            (#[trigger] plants[i]).position,
            spot,
            plants[i].plant.plant_type,
        )
}

/// Whether some plant covers `spot` with its circle.
pub fn is_spot_taken(plants: &Vec<PlantEntity>, spot: GridPoint) -> (taken: bool)
    ensures
        taken == spot_taken(plants@, spot),
{
    let mut i: usize = 0;
    while i < plants.len()
        invariant
            i <= plants@.len(),
            forall|j: int|
                0 <= j < i ==> !plant_covers(
                    (#[trigger] plants@[j]).position,
                    spot,
                    plants@[j].plant.plant_type,
                ),
        decreases plants@.len() - i,
    {
        if plant_collision_check(plants[i].position, spot, plants[i].plant.plant_type) {
            return true;
        }
        i += 1;
    }
    false
}

/// A seed of `seed_type` may be thrown from `player` to `click`: the spot
/// can be reached, straight or by way of grown gnomes; no plant covers it;
/// and the balance pays for the seed.
pub open spec fn can_sow(
    player: GridPoint,
    click: GridPoint,
    seed_type: PlantType,
    plants: Seq<PlantEntity>,
    balance: int,
) -> bool {
    &&& throw_reachable(
        player,
        gnome_relays(plants),
        click,
        PLAYER_THROW_RADIUS_PX,
        GNOME_THROW_RADIUS_PX,
    )
    &&& !spot_taken(plants, click)
    &&& balance >= seed_type.spec_price()
}

/// Answers one click of the player who stands at `player`.
///
/// Where the click can be served, the price of the seed is taken from the
/// account and the throw of the seed is returned. Otherwise nothing changes
/// and nothing is returned.
pub fn player_click(
    click: GridPoint,
    player: GridPoint,
    seed_type: PlantType,
    plants: &Vec<PlantEntity>,
    bank_account: &mut BankAccount,
) -> (throw: Option<ThrowSeedEvent>)
    ensures
        throw.is_some() <==> can_sow(
            player,
            click,
            seed_type,
            plants@,
            old(bank_account).balance as int,
        ),
        throw.is_some() ==> final(bank_account).balance == old(bank_account).balance
            - seed_type.spec_price(),
        throw.is_none() ==> *final(bank_account) == *old(bank_account),
        throw matches Some(t) ==> t.from_player && t.seed_type == seed_type && is_throw_path(
            t.path@,
            player,
            gnome_relays(plants@),
            click,
            PLAYER_THROW_RADIUS_PX,
            GNOME_THROW_RADIUS_PX,
        ) && Some(t.path@) == throw_route(
            player,
            gnome_relays(plants@),
            click,
            PLAYER_THROW_RADIUS_PX,
            GNOME_THROW_RADIUS_PX,
        ),
{
    let relays = gnome_positions(plants);
    let seed_path = throw_path(
        player,
        relays,
        click,
        PLAYER_THROW_RADIUS_PX,
        GNOME_THROW_RADIUS_PX,
    );
    let taken = is_spot_taken(plants, click);
    let price = seed_type.price();
    match seed_path {
        Some(path) => {
            if !taken && bank_account.balance() >= price {
                bank_account.deduct(price);
                Some(ThrowSeedEvent { from_player: true, path, seed_type })
            } else {
                None
            }
        },
        None => None,
    }
}

/// What the clicks of one tick led to.
#[derive(Debug)]
pub struct ClickOutcome {
    /// The throws of the seeds that were bought, in the order of the clicks.
    pub throws: Vec<ThrowSeedEvent>,
    /// One sound for each click that was turned down.
    pub sounds: Vec<SoundRequest>,
    /// One for each change of the balance.
    pub balance_updates: Vec<BankAccountUpdateEvent>,
}

/// The balance after the first `count` clicks were answered in order, each
/// seeing what the clicks before it left.
pub open spec fn balance_after_clicks(
    clicks: Seq<PlayerClickEvent>,
    player: GridPoint,
    seed_type: PlantType,
    plants: Seq<PlantEntity>,
    balance: int,
    count: nat,
) -> int
    decreases count,
{
    if count == 0 {
        balance
    } else {
        let before = balance_after_clicks(
            clicks,
            player,
            seed_type,
            plants,
            balance,
            (count - 1) as nat,
        );
        if can_sow(player, clicks[count - 1].0, seed_type, plants, before) {
            before - seed_type.spec_price()
        } else {
            before
        }
    }
}

/// The click at `index` is served when the clicks are answered in order.
pub open spec fn click_served(
    clicks: Seq<PlayerClickEvent>,
    player: GridPoint,
    seed_type: PlantType,
    plants: Seq<PlantEntity>,
    balance: int,
    index: int,
) -> bool {
    can_sow(
        player,
        clicks[index].0,
        seed_type,
        plants,
        balance_after_clicks(clicks, player, seed_type, plants, balance, index as nat),
    )
}

/// The places of the clicks that are served among the first `count`, in
/// order.
pub open spec fn served_clicks(
    clicks: Seq<PlayerClickEvent>,
    player: GridPoint,
    seed_type: PlantType,
    plants: Seq<PlantEntity>,
    balance: int,
    count: nat,
) -> Seq<GridPoint>
    decreases count,
{
    if count == 0 {
        Seq::empty()
    } else {
        let before = served_clicks(clicks, player, seed_type, plants, balance, (count - 1) as nat);
        if click_served(clicks, player, seed_type, plants, balance, count - 1) {
            before.push(clicks[count - 1].0)
        } else {
            before
        }
    }
}

/// The sounds for the clicks that are turned down among the first `count`,
/// in order: each sounds at the place of its click.
pub open spec fn refusal_sounds(
    clicks: Seq<PlayerClickEvent>,
    player: GridPoint,
    seed_type: PlantType,
    plants: Seq<PlantEntity>,
    balance: int,
    count: nat,
) -> Seq<SoundRequest>
    decreases count,
{
    if count == 0 {
        Seq::empty()
    } else {
        let before = refusal_sounds(clicks, player, seed_type, plants, balance, (count - 1) as nat);
        if click_served(clicks, player, seed_type, plants, balance, count - 1) {
            before
        } else {
            before.push(SoundRequest { sound: SoundEffect::Invalid, position: clicks[count - 1].0 })
        }
    }
}

/// The throws for the clicks that are served among the first `count`, in
/// order: each goes from the player to the place of its click, along the
/// path that the search settles on.
pub open spec fn click_throws(
    clicks: Seq<PlayerClickEvent>,
    player: GridPoint,
    seed_type: PlantType,
    plants: Seq<PlantEntity>,
    balance: int,
    count: nat,
) -> Seq<ThrowSeedView> {
    let served = served_clicks(clicks, player, seed_type, plants, balance, count);
    Seq::new(
        served.len(),
        |k: int|
            ThrowSeedView {
                from_player: true,
                path: throw_route(
                    player,
                    gnome_relays(plants),
                    served[k],
                    PLAYER_THROW_RADIUS_PX,
                    GNOME_THROW_RADIUS_PX,
                ).unwrap(),
                seed_type,
            },
    )
}

/// Answers the clicks of one tick in order.
///
/// Without a player nothing happens. With one, each click that can be
/// served costs the price of the selected seed and starts a throw from the
/// player; each other click changes nothing and asks for the sound of a
/// refusal.
pub fn on_player_click(
    clicks: &Vec<PlayerClickEvent>,
    player: Option<GridPoint>,
    seed_type: PlantType,
    plants: &Vec<PlantEntity>,
    bank_account: &mut BankAccount,
) -> (outcome: ClickOutcome)
    ensures
        player.is_none() ==> *final(bank_account) == *old(bank_account) && outcome.throws@.len()
            == 0 && outcome.sounds@.len() == 0 && outcome.balance_updates@.len() == 0,
        player matches Some(p) ==> {
            let served = served_clicks(
                clicks@,
                p,
                seed_type,
                plants@,
                old(bank_account).balance as int,
                clicks@.len(),
            );
            &&& final(bank_account).balance == balance_after_clicks(
                clicks@,
                p,
                seed_type,
                plants@,
                old(bank_account).balance as int,
                clicks@.len(),
            )
            &&& outcome.sounds@ == refusal_sounds(
                clicks@,
                p,
                seed_type,
                plants@,
                old(bank_account).balance as int,
                clicks@.len(),
            )
            &&& outcome.balance_updates@.len() == served.len()
            &&& throws_view(outcome.throws@) == click_throws(
                clicks@,
                p,
                seed_type,
                plants@,
                old(bank_account).balance as int,
                clicks@.len(),
            )
            &&& outcome.throws@.len() == served.len()
            &&& forall|k: int|
                0 <= k < served.len() ==> {
                    let t = #[trigger] outcome.throws@[k];
                    &&& t.from_player
                    &&& t.seed_type == seed_type
                    &&& is_throw_path(
                        t.path@,
                        p,
                        gnome_relays(plants@),
                        served[k],
                        PLAYER_THROW_RADIUS_PX,
                        GNOME_THROW_RADIUS_PX,
                    )
                    &&& Some(t.path@) == throw_route(
                        p,
                        gnome_relays(plants@),
                        served[k],
                        PLAYER_THROW_RADIUS_PX,
                        GNOME_THROW_RADIUS_PX,
                    )
                }
        },
{
    let mut outcome = ClickOutcome {
        throws: Vec::new(),
        sounds: Vec::new(),
        balance_updates: Vec::new(),
    };
    let p = match player {
        Some(p) => p,
        None => {
            return outcome;
        },
    };
    let ghost start = bank_account.balance as int;
    let mut i: usize = 0;
    while i < clicks.len()
        invariant
            i <= clicks@.len(),
            bank_account.balance == balance_after_clicks(
                clicks@,
                p,
                seed_type,
                plants@,
                start,
                i as nat,
            ),
            outcome.sounds@ == refusal_sounds(clicks@, p, seed_type, plants@, start, i as nat),
            outcome.balance_updates@.len() == served_clicks(
                clicks@,
                p,
                seed_type,
                plants@,
                start,
                i as nat,
            ).len(),
            outcome.throws@.len() == served_clicks(
                clicks@,
                p,
                seed_type,
                plants@,
                start,
                i as nat,
            ).len(),
            forall|k: int|
                0 <= k < outcome.throws@.len() ==> {
                    let t = #[trigger] outcome.throws@[k];
                    let at = served_clicks(clicks@, p, seed_type, plants@, start, i as nat)[k];
                    &&& t.from_player
                    &&& t.seed_type == seed_type
                    &&& is_throw_path(
                        t.path@,
                        p,
                        gnome_relays(plants@),
                        at,
                        PLAYER_THROW_RADIUS_PX,
                        GNOME_THROW_RADIUS_PX,
                    )
                    &&& Some(t.path@) == throw_route(
                        p,
                        gnome_relays(plants@),
                        at,
                        PLAYER_THROW_RADIUS_PX,
                        GNOME_THROW_RADIUS_PX,
                    )
                },
        decreases clicks@.len() - i,
    {
        let click = clicks[i].0;
        match player_click(click, p, seed_type, plants, bank_account) {
            Some(throw) => {
                outcome.throws.push(throw);
                outcome.balance_updates.push(BankAccountUpdateEvent);
            },
            None => {
                outcome.sounds.push(SoundRequest { sound: SoundEffect::Invalid, position: click });
            },
        }
        i += 1;
    }
    proof {
        assert(throws_view(outcome.throws@) =~= click_throws(
            clicks@,
            p,
            seed_type,
            plants@,
            start,
            clicks@.len(),
        ));
    }
    outcome
}

/// A click is turned down, and costs nothing, whenever the balance is
/// below the price of the selected seed.
pub proof fn lemma_no_sowing_on_credit(
    player: GridPoint,
    click: GridPoint,
    seed_type: PlantType,
    plants: Seq<PlantEntity>,
    balance: int,
)
    requires
        balance < seed_type.spec_price(),
    ensures
        !can_sow(player, click, seed_type, plants, balance),
        balance_after_clicks(seq![PlayerClickEvent(click)], player, seed_type, plants, balance, 1)
            == balance,
        served_clicks(seq![PlayerClickEvent(click)], player, seed_type, plants, balance, 1).len()
            == 0,
{
    let clicks = seq![PlayerClickEvent(click)];
    assert(balance_after_clicks(clicks, player, seed_type, plants, balance, 0) == balance);
    assert(served_clicks(clicks, player, seed_type, plants, balance, 0).len() == 0);
}

/// Answering clicks never takes the balance below zero if it was not there
/// before, and never raises it.
pub proof fn lemma_clicks_keep_balance_in_bounds(
    clicks: Seq<PlayerClickEvent>,
    player: GridPoint,
    seed_type: PlantType,
    plants: Seq<PlantEntity>,
    balance: int,
    count: nat,
)
    ensures
        balance_after_clicks(clicks, player, seed_type, plants, balance, count) <= balance,
        balance >= 0 ==> balance_after_clicks(clicks, player, seed_type, plants, balance, count)
            >= 0,
        balance < 0 ==> balance_after_clicks(clicks, player, seed_type, plants, balance, count)
            == balance,
    decreases count,
{
    if count > 0 {
        lemma_clicks_keep_balance_in_bounds(
            clicks,
            player,
            seed_type,
            plants,
            balance,
            (count - 1) as nat,
        );
    }
}

} // verus!
