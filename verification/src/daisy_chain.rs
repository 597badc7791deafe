//! Daisy chains: three grown daisies are sold together for a fixed price.

use vstd::prelude::*;
use vstd::arithmetic::div_mod::lemma_fundamental_div_mod_converse;
use crate::coin::GetCoinEvent;
use crate::entity::EntityId;
use crate::farm::{clamp_balance, BankAccount, BankAccountUpdateEvent};
use crate::geometry::{clamp_coordinate, GridPoint};
use crate::plant::{PlantEntity, PlantType, SellDaisyChainEvent, DAISY_CHAIN_LENGTH, DAISY_CHAIN_VALUE};
use crate::sequence::{lemma_filter_next, lemma_filter_none, lemma_take_all, lemma_take_next};

verus! {

/// The sale of one daisy chain, as mathematical values.
pub struct SellDaisyChainView {
    pub daisy_entities: Seq<EntityId>,
    pub position: GridPoint,
}

impl View for SellDaisyChainEvent {
    type V = SellDaisyChainView;

    open spec fn view(&self) -> SellDaisyChainView {
        SellDaisyChainView { daisy_entities: self.daisy_entities@, position: self.position }
    }
}

/// Sum of the first `count` x coordinates.
pub open spec fn sum_x(points: Seq<GridPoint>, count: nat) -> int
    decreases count,
{
    if count == 0 {
        0
    } else {
        sum_x(points, (count - 1) as nat) + points[count - 1].x
    }
}

/// Sum of the first `count` y coordinates.
pub open spec fn sum_y(points: Seq<GridPoint>, count: nat) -> int
    decreases count,
{
    if count == 0 {
        0
    } else {
        sum_y(points, (count - 1) as nat) + points[count - 1].y
    }
}

/// The centre of the points: the mean of each coordinate, rounded down.
/// The centre of no points is the zero point.
pub open spec fn spec_avg_pos(points: Seq<GridPoint>) -> GridPoint {
    if points.len() == 0 {
        GridPoint { x: 0, y: 0 }
    } else {
        GridPoint {
            x: clamp_coordinate(sum_x(points, points.len()) / (points.len() as int)) as i32,
            y: clamp_coordinate(sum_y(points, points.len()) / (points.len() as int)) as i32,
        }
    }
}

/// `sum / count`, rounded down and kept inside the range of a coordinate.
fn mean_coordinate(sum: i128, count: u64) -> (mean: i32)
    requires
        count > 0,
        -0x8000_0000 * count <= sum <= 0x8000_0000 * count,
    ensures
        mean == clamp_coordinate((sum as int) / (count as int)),
{
    let n: i128 = count as i128;
    assert(0x8000_0000 * count <= 0x8000_0000 * 0x1_0000_0000_0000_0000) by (nonlinear_arith)
        requires
            0 < count < 0x1_0000_0000_0000_0000,
    ;
    let floor: i128 = if sum >= 0 {
        sum / n
    } else {
        let up: i128 = -sum + n - 1;
        let q: i128 = up / n;
        proof {
            let r = (up as int) % (n as int);
            assert(up == q * n + r && 0 <= r < n) by (nonlinear_arith)
                requires
                    q == (up as int) / (n as int),
                    r == (up as int) % (n as int),
                    n > 0,
            ;
            assert(sum == (-q) * n + (n - 1 - r)) by (nonlinear_arith)
                requires
                    up == q * n + r,
                    up == -sum + n - 1,
            ;
            lemma_fundamental_div_mod_converse(sum as int, n as int, -q, n - 1 - r);
            assert(0 <= q <= up) by (nonlinear_arith)
                requires
                    q == (up as int) / (n as int),
                    n > 0,
                    up >= 0,
            ;
        }
        -q
    };
    if floor < i32::MIN as i128 {
        i32::MIN
    } else if floor > i32::MAX as i128 {
        i32::MAX
    } else {
        floor as i32
    }
}

/// The centre of the positions: the mean of each coordinate, rounded down;
/// the zero point where there is no position.
pub fn avg_pos(positions: &Vec<GridPoint>) -> (centre: GridPoint)
    ensures
        centre == spec_avg_pos(positions@),
{
    if positions.len() == 0 {
        return GridPoint { x: 0, y: 0 };
    }
    let mut total_x: i128 = 0;
    let mut total_y: i128 = 0;
    let mut i: usize = 0;
    while i < positions.len()
        invariant
            i <= positions@.len(),
            total_x == sum_x(positions@, i as nat),
            total_y == sum_y(positions@, i as nat),
            -0x8000_0000 * i <= total_x <= 0x8000_0000 * i,
            -0x8000_0000 * i <= total_y <= 0x8000_0000 * i,
        decreases positions@.len() - i,
    {
        total_x = total_x + positions[i].x as i128;
        total_y = total_y + positions[i].y as i128;
        i += 1;
    }
    let count: u64 = positions.len() as u64;
    GridPoint { x: mean_coordinate(total_x, count), y: mean_coordinate(total_y, count) }
}

/// Tells the grown daisies from the other plants.
pub open spec fn mature_daisy_pred() -> spec_fn(PlantEntity) -> bool {
    |p: PlantEntity| p.mature_daisy()
}

/// The grown daisies, in the order of the plants.
pub open spec fn mature_daisies(plants: Seq<PlantEntity>) -> Seq<PlantEntity> {
    plants.filter(mature_daisy_pred())
}

/// The sale that a scan of the plants asks for: that of the first three
/// grown daisies, with the coin at their centre. Nothing where fewer than
/// three daisies are grown.
pub open spec fn spec_daisy_chain(plants: Seq<PlantEntity>) -> Option<SellDaisyChainView> {
    let daisies = mature_daisies(plants);
    if daisies.len() < DAISY_CHAIN_LENGTH {
        None
    } else {
        Some(
            SellDaisyChainView {
                daisy_entities: seq![daisies[0].id, daisies[1].id, daisies[2].id],
                position: spec_avg_pos(
                    seq![daisies[0].position, daisies[1].position, daisies[2].position],
                ),
            },
        )
    }
}

/// The grown daisies, in the order of the plants.
pub fn grown_daisies(plants: &Vec<PlantEntity>) -> (daisies: Vec<PlantEntity>)
    ensures
        daisies@ == mature_daisies(plants@),
{
    let mut daisies: Vec<PlantEntity> = Vec::new();
    let mut i: usize = 0;
    proof {
        lemma_filter_none(plants@, mature_daisy_pred());
    }
    while i < plants.len()
        invariant
            i <= plants@.len(),
            daisies@ == plants@.take(i as int).filter(mature_daisy_pred()),
        decreases plants@.len() - i,
    {
        proof {
            lemma_filter_next(plants@, i as int, mature_daisy_pred());
        }
        if plants[i].growth.is_none() && plants[i].plant.plant_type == PlantType::Daisy {
            daisies.push(plants[i]);
        }
        i += 1;
    }
    proof {
        lemma_take_all(plants@);
    }
    daisies
}

/// Scans the plants for a daisy chain: where at least three daisies are
/// grown, asks for the sale of the first three.
pub fn form_daisy_chains(plants: &Vec<PlantEntity>) -> (event: Option<SellDaisyChainEvent>)
    ensures
        event.is_some() == spec_daisy_chain(plants@).is_some(),
        event matches Some(e) ==> spec_daisy_chain(plants@) == Some(e@),
{
    let daisies = grown_daisies(plants);
    if daisies.len() < DAISY_CHAIN_LENGTH {
        return None;
    }
    let mut daisy_entities: Vec<EntityId> = Vec::new();
    let mut positions: Vec<GridPoint> = Vec::new();
    daisy_entities.push(daisies[0].id);
    daisy_entities.push(daisies[1].id);
    daisy_entities.push(daisies[2].id);
    positions.push(daisies[0].position);
    positions.push(daisies[1].position);
    positions.push(daisies[2].position);
    proof {
        assert(daisy_entities@ =~= seq![daisies@[0].id, daisies@[1].id, daisies@[2].id]);
        assert(positions@ =~= seq![
            daisies@[0].position,
            daisies@[1].position,
            daisies@[2].position,
        ]);
    }
    Some(SellDaisyChainEvent { daisy_entities, position: avg_pos(&positions) })
}

/// The identifiers that the first `count` sales name, in order.
pub open spec fn sold_ids(events: Seq<SellDaisyChainEvent>, count: nat) -> Seq<EntityId>
    decreases count,
{
    if count == 0 {
        Seq::empty()
    } else {
        sold_ids(events, (count - 1) as nat) + events[count - 1].daisy_entities@
    }
}

/// Tells the plants that none of `sold` names.
pub open spec fn unsold_pred(sold: Seq<EntityId>) -> spec_fn(PlantEntity) -> bool {
    |p: PlantEntity| !sold.contains(p.id)
}

/// The balance after `count` daisy chains were paid for.
pub open spec fn balance_after_sales(balance: int, count: nat) -> int
    decreases count,
{
    if count == 0 {
        balance
    } else {
        clamp_balance(balance_after_sales(balance, (count - 1) as nat) + DAISY_CHAIN_VALUE)
    }
}

/// The coins for the sales: one at the place of each.
pub open spec fn sale_coins(events: Seq<SellDaisyChainEvent>) -> Seq<GetCoinEvent> {
    Seq::new(events.len(), |k: int| GetCoinEvent(events[k].position))
}

/// What the sales of one tick led to.
#[derive(Debug)]
pub struct SaleOutcome {
    /// One coin for each sale.
    pub coins: Vec<GetCoinEvent>,
    /// One for each change of the balance.
    pub balance_updates: Vec<BankAccountUpdateEvent>,
}

/// Whether `id` is among `ids`.
pub fn contains_id(ids: &Vec<EntityId>, id: EntityId) -> (found: bool)
    ensures
        found == ids@.contains(id),
{
    let mut i: usize = 0;
    while i < ids.len()
        invariant
            i <= ids@.len(),
            forall|j: int| 0 <= j < i ==> ids@[j] != id,
        decreases ids@.len() - i,
    {
        if ids[i] == id {
            return true;
        }
        i += 1;
    }
    false
}

/// Carries the sales out: removes the plants that the sales name, pays
/// the price of a chain into the account for each sale, and asks for a coin
/// at the place of each.
pub fn sell_daisy_chains(
    plants: &mut Vec<PlantEntity>,
    bank_account: &mut BankAccount,
    events: &Vec<SellDaisyChainEvent>,
) -> (outcome: SaleOutcome)
    ensures
        final(plants)@ == old(plants)@.filter(unsold_pred(sold_ids(events@, events@.len()))),
        final(bank_account).balance == balance_after_sales(
            old(bank_account).balance as int,
            events@.len(),
        ),
        outcome.coins@ == sale_coins(events@),
        outcome.balance_updates@.len() == events@.len(),
{
    let mut outcome = SaleOutcome { coins: Vec::new(), balance_updates: Vec::new() };
    let mut sold: Vec<EntityId> = Vec::new();
    let mut k: usize = 0;
    proof {
        assert(outcome.coins@ =~= sale_coins(events@.take(0)));
    }
    while k < events.len()
        invariant
            k <= events@.len(),
            sold@ == sold_ids(events@, k as nat),
            bank_account.balance == balance_after_sales(old(bank_account).balance as int, k as nat),
            outcome.coins@ == sale_coins(events@.take(k as int)),
            outcome.balance_updates@.len() == k,
        decreases events@.len() - k,
    {
        let ghost before = sold@;
        let mut j: usize = 0;
        while j < events[k].daisy_entities.len()
            invariant
                k < events@.len(),
                j <= events@[k as int].daisy_entities@.len(),
                sold@ == before + events@[k as int].daisy_entities@.take(j as int),
            decreases events@[k as int].daisy_entities@.len() - j,
        {
            sold.push(events[k].daisy_entities[j]);
            proof {
                lemma_take_next(events@[k as int].daisy_entities@, j as int);
                assert(sold@ =~= before + events@[k as int].daisy_entities@.take(j + 1));
            }
            j += 1;
        }
        proof {
            lemma_take_all(events@[k as int].daisy_entities@);
        }
        bank_account.credit(DAISY_CHAIN_VALUE);
        outcome.balance_updates.push(BankAccountUpdateEvent);
        outcome.coins.push(GetCoinEvent(events[k].position));
        proof {
            assert(outcome.coins@ =~= sale_coins(events@.take(k + 1)));
        }
        k += 1;
    }
    proof {
        lemma_take_all(events@);
    }
    let ghost all_sold = sold@;
    let mut kept: Vec<PlantEntity> = Vec::new();
    let mut i: usize = 0;
    proof {
        lemma_filter_none(plants@, unsold_pred(all_sold));
    }
    while i < plants.len()
        invariant
            i <= plants@.len(),
            plants@ == old(plants)@,
            sold@ == all_sold,
            kept@ == plants@.take(i as int).filter(unsold_pred(all_sold)),
        decreases plants@.len() - i,
    {
        proof {
            lemma_filter_next(plants@, i as int, unsold_pred(all_sold));
        }
        if !contains_id(&sold, plants[i].id) {
            kept.push(plants[i]);
        }
        i += 1;
    }
    proof {
        lemma_take_all(plants@);
    }
    *plants = kept;
    outcome
}

/// No two of the plants share an identifier.
pub open spec fn distinct_ids(plants: Seq<PlantEntity>) -> bool {
    forall|i: int, j: int|
        0 <= i < j < plants.len() ==> (#[trigger] plants[i]).id != (#[trigger] plants[j]).id
}

/// The grown daisies among the plants are those among the first `n` plants
/// and after them those among the rest.
proof fn lemma_daisies_split(plants: Seq<PlantEntity>, n: int)
    requires
        0 <= n <= plants.len(),
    ensures
        mature_daisies(plants) == plants.take(n).filter(mature_daisy_pred()) + plants.skip(
            n,
        ).filter(mature_daisy_pred()),
{
    assert(plants =~= plants.take(n) + plants.skip(n));
    Seq::filter_distributes_over_add(plants.take(n), plants.skip(n), mature_daisy_pred());
}

/// Every grown daisy is one of the plants and is a grown daisy.
proof fn lemma_daisy_is_plant(plants: Seq<PlantEntity>, k: int) -> (i: int)
    requires
        0 <= k < mature_daisies(plants).len(),
    ensures
        0 <= i < plants.len(),
        plants[i] == mature_daisies(plants)[k],
        plants[i].mature_daisy(),
{
    let d = mature_daisies(plants);
    plants.lemma_filter_pred(mature_daisy_pred(), k);
    assert(d.contains(d[k]));
    plants.lemma_filter_contains_rev(mature_daisy_pred(), d[k]);
    choose|i: int| 0 <= i < plants.len() && plants[i] == d[k]
}

/// Among plants with distinct identifiers, the grown daisies have distinct
/// identifiers too.
proof fn lemma_daisies_distinct(plants: Seq<PlantEntity>)
    requires
        distinct_ids(plants),
    ensures
        distinct_ids(mature_daisies(plants)),
    decreases plants.len(),
{
    reveal(Seq::filter);
    if plants.len() > 0 {
        let front = plants.drop_last();
        let last = plants.last();
        assert forall|i: int, j: int| 0 <= i < j < front.len() implies (#[trigger] front[i]).id != (
        #[trigger] front[j]).id by {
            assert(front[i] == plants[i] && front[j] == plants[j]);
        }
        lemma_daisies_distinct(front);
        let fd = mature_daisies(front);
        let d = mature_daisies(plants);
        if mature_daisy_pred()(last) {
            assert(d == fd.push(last));
            assert forall|i: int, j: int| 0 <= i < j < d.len() implies (#[trigger] d[i]).id != (
            #[trigger] d[j]).id by {
                if j < fd.len() {
                    assert(d[i] == fd[i] && d[j] == fd[j]);
                } else {
                    let at = lemma_daisy_is_plant(front, i);
                    assert(plants[at] == front[at]);
                    assert(plants[at].id != plants[plants.len() - 1].id);
                }
            }
        } else {
            assert(d == fd);
        }
    }
}

/// With at least three grown daisies among plants with distinct
/// identifiers, the sale names the plant at `n` exactly if it is a grown
/// daisy with fewer than three grown daisies before it.
proof fn lemma_sold_exactly(plants: Seq<PlantEntity>, n: int)
    requires
        distinct_ids(plants),
        mature_daisies(plants).len() >= 3,
        0 <= n < plants.len(),
    ensures
        ({
            let chain = spec_daisy_chain(plants).unwrap().daisy_entities;
            chain.contains(plants[n].id) <==> (plants[n].mature_daisy() && plants.take(n).filter(
                mature_daisy_pred(),
            ).len() < 3)
        }),
{
    let d = mature_daisies(plants);
    let chain = spec_daisy_chain(plants).unwrap().daisy_entities;
    let x = plants[n];
    let before = plants.take(n).filter(mature_daisy_pred());
    let m = before.len() as int;
    lemma_daisies_distinct(plants);
    lemma_daisies_split(plants, n + 1);
    lemma_filter_next(plants, n, mature_daisy_pred());
    if x.mature_daisy() {
        assert(plants.take(n + 1).filter(mature_daisy_pred()) == before.push(x));
        assert(d[m] == before.push(x)[m]);
        assert(d[m] == x);
        if m < 3 {
            assert(chain[m] == x.id);
        }
    }
    if chain.contains(x.id) {
        let j = choose|j: int| 0 <= j < chain.len() && chain[j] == x.id;
        assert(d[j].id == x.id);
        let at = lemma_daisy_is_plant(plants, j);
        if at < n {
            assert(plants[at].id != plants[n].id);
        }
        if n < at {
            assert(plants[n].id != plants[at].id);
        }
        assert(at == n);
        assert(x.mature_daisy());
        if j < m {
            assert(d[j].id != d[m].id);
        }
        if m < j {
            assert(d[m].id != d[j].id);
        }
        assert(j == m);
    }
}

/// Among the first `n` plants, the sale leaves all but the first three
/// grown daisies.
proof fn lemma_unsold_count(plants: Seq<PlantEntity>, n: int)
    requires
        distinct_ids(plants),
        mature_daisies(plants).len() >= 3,
        0 <= n <= plants.len(),
    ensures
        ({
            let chain = spec_daisy_chain(plants).unwrap().daisy_entities;
            let daisies = plants.take(n).filter(mature_daisy_pred()).len();
            plants.take(n).filter(unsold_pred(chain)).len() == n - (if daisies < 3 {
                daisies as int
            } else {
                3
            })
        }),
    decreases n,
{
    let chain = spec_daisy_chain(plants).unwrap().daisy_entities;
    if n == 0 {
        lemma_filter_none(plants, mature_daisy_pred());
        lemma_filter_none(plants, unsold_pred(chain));
    } else {
        lemma_unsold_count(plants, n - 1);
        lemma_sold_exactly(plants, n - 1);
        lemma_filter_next(plants, n - 1, mature_daisy_pred());
        lemma_filter_next(plants, n - 1, unsold_pred(chain));
    }
}

/// The sale of a daisy chain. Among plants with distinct identifiers of
/// which at least three are grown daisies, a scan asks for the sale of the
/// first three grown daisies; carrying it out removes exactly these three,
/// leaves every other plant as it is, a fourth or fifth daisy too, and pays
/// the price of one chain into the account.
pub proof fn lemma_daisy_chain_sale(plants: Seq<PlantEntity>, balance: int)
    requires
        distinct_ids(plants),
        mature_daisies(plants).len() >= 3,
    ensures
        ({
            let daisies = mature_daisies(plants);
            let chain = spec_daisy_chain(plants).unwrap().daisy_entities;
            let left = plants.filter(unsold_pred(chain));
            &&& chain == seq![daisies[0].id, daisies[1].id, daisies[2].id]
            &&& left.len() == plants.len() - 3
            &&& forall|k: int| 0 <= k < 3 ==> !left.contains(#[trigger] daisies[k])
            &&& forall|k: int| 3 <= k < daisies.len() ==> left.contains(#[trigger] daisies[k])
            &&& forall|i: int|
                0 <= i < plants.len() && !(#[trigger] plants[i]).mature_daisy() ==> left.contains(
                    plants[i],
                )
            &&& forall|i: int| 0 <= i < left.len() ==> plants.contains(#[trigger] left[i])
            &&& balance_after_sales(balance, 1) == clamp_balance(balance + DAISY_CHAIN_VALUE)
        }),
{
    let daisies = mature_daisies(plants);
    let chain = spec_daisy_chain(plants).unwrap().daisy_entities;
    let left = plants.filter(unsold_pred(chain));
    lemma_unsold_count(plants, plants.len() as int);
    lemma_take_all(plants);
    lemma_daisies_distinct(plants);
    assert forall|k: int| 0 <= k < 3 implies !left.contains(#[trigger] daisies[k]) by {
        if left.contains(daisies[k]) {
            let at = choose|at: int| 0 <= at < left.len() && left[at] == daisies[k];
            plants.lemma_filter_pred(unsold_pred(chain), at);
            assert(chain[k] == daisies[k].id);
            assert(false);
        }
    }
    assert forall|k: int| 3 <= k < daisies.len() implies left.contains(#[trigger] daisies[k]) by {
        let at = lemma_daisy_is_plant(plants, k);
        if chain.contains(daisies[k].id) {
            let j = choose|j: int| 0 <= j < chain.len() && chain[j] == daisies[k].id;
            assert(daisies[j].id != daisies[k].id);
            assert(false);
        }
        plants.lemma_filter_contains(unsold_pred(chain), at);
    }
    assert forall|i: int|
        0 <= i < plants.len() && !(#[trigger] plants[i]).mature_daisy() implies left.contains(
        plants[i],
    ) by {
        lemma_sold_exactly(plants, i);
        plants.lemma_filter_contains(unsold_pred(chain), i);
    }
    assert forall|i: int| 0 <= i < left.len() implies plants.contains(#[trigger] left[i]) by {
        assert(left.contains(left[i]));
        plants.lemma_filter_contains_rev(unsold_pred(chain), left[i]);
    }
    assert(balance_after_sales(balance, 0) == balance);
}

} // verus!
