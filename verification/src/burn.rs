//! Fire: what happens when the physics reports that a fireball met a rat.

use vstd::prelude::*;
use crate::enemy::{find_enemy, has_enemy, EnemyEntity};
use crate::entity::EntityId;
use crate::geometry::GridPoint;
use crate::physics::CollisionStarted;
use crate::plant::{Fireball, FireballEntity, FIREBALL_DAMAGE};
use crate::sequence::{lemma_filter_next, lemma_filter_none, lemma_take_all};
use crate::smoke::SpawnSmokeEvent;
use crate::sound::{SoundEffect, SoundRequest};

verus! {

/// Some fireball that is still active carries the identifier `id`.
pub open spec fn has_active_fireball(fireballs: Seq<FireballEntity>, id: EntityId) -> bool {
    exists|i: int|
        0 <= i < fireballs.len() && (#[trigger] fireballs[i]).id == id && fireballs[i].fireball.active
}

/// Whether some fireball that is still active carries the identifier `id`.
pub fn any_active_fireball(fireballs: &Vec<FireballEntity>, id: EntityId) -> (found: bool)
    ensures
        found == has_active_fireball(fireballs@, id),
{
    let mut i: usize = 0;
    while i < fireballs.len()
        invariant
            i <= fireballs@.len(),
            forall|j: int|
                0 <= j < i ==> !((#[trigger] fireballs@[j]).id == id && fireballs@[j].fireball.active),
        decreases fireballs@.len() - i,
    {
        if fireballs[i].id == id && fireballs[i].fireball.active {
            return true;
        }
        i += 1;
    }
    false
}

/// Which of the two bodies of a collision is the fireball and which the
/// rat it burns: the active fireball first, the rat second. Nothing where
/// the collision is not one of an active fireball with a rat.
pub open spec fn burn_pair(
    fireballs: Seq<FireballEntity>,
    enemies: Seq<EnemyEntity>,
    collision: CollisionStarted,
) -> Option<(EntityId, EntityId)> {
    if has_active_fireball(fireballs, collision.0) && has_enemy(enemies, collision.1) {
        Some((collision.0, collision.1))
    } else if has_enemy(enemies, collision.0) && has_active_fireball(fireballs, collision.1) {
        Some((collision.1, collision.0))
    } else {
        None
    }
}

/// The fireballs after the one called `id` went out.
pub open spec fn quenched(fireballs: Seq<FireballEntity>, id: EntityId) -> Seq<FireballEntity> {
    Seq::new(
        fireballs.len(),
        |i: int|
            if fireballs[i].id == id {
                FireballEntity {
                    fireball: Fireball { active: false, ..fireballs[i].fireball },
                    ..fireballs[i]
                }
            } else {
                fireballs[i]
            },
    )
}

/// The rats after the one called `id` was burnt by a fireball.
pub open spec fn scorched(enemies: Seq<EnemyEntity>, id: EntityId) -> Seq<EnemyEntity> {
    Seq::new(
        enemies.len(),
        |i: int|
            if enemies[i].id == id {
                EnemyEntity { health: enemies[i].health.after_hit(FIREBALL_DAMAGE), ..enemies[i] }
            } else {
                enemies[i]
            },
    )
}

/// `index` is the first place among the rats at which `id` stands.
pub open spec fn is_first_enemy(enemies: Seq<EnemyEntity>, id: EntityId, index: int) -> bool {
    &&& 0 <= index < enemies.len()
    &&& enemies[index].id == id
    &&& forall|j: int| 0 <= j < index ==> (#[trigger] enemies[j]).id != id
}

/// Where the rat called `id` stands.
pub open spec fn enemy_position(enemies: Seq<EnemyEntity>, id: EntityId) -> GridPoint {
    enemies[choose|index: int| is_first_enemy(enemies, id, index)].position
}

/// At most one place is the first at which `id` stands.
pub proof fn lemma_first_enemy_is_unique(enemies: Seq<EnemyEntity>, id: EntityId, a: int)
    requires
        is_first_enemy(enemies, id, a),
    ensures
        enemy_position(enemies, id) == enemies[a].position,
{
    let c = choose|index: int| is_first_enemy(enemies, id, index);
    assert(is_first_enemy(enemies, id, c));
    if c < a {
        assert(enemies[c].id != id);
    }
    if a < c {
        assert(enemies[a].id != id);
    }
}

/// Fireballs and rats while collisions are worked off, and the places
/// where something burned so far.
pub struct BurnView {
    pub fireballs: Seq<FireballEntity>,
    pub enemies: Seq<EnemyEntity>,
    pub burnt: Seq<GridPoint>,
}

/// The world after one collision: where an active fireball met a rat, the
/// rat is burnt and the fireball goes out; any other collision changes
/// nothing.
pub open spec fn burn_one(state: BurnView, collision: CollisionStarted) -> BurnView {
    match burn_pair(state.fireballs, state.enemies, collision) {
        Some((fireball, enemy)) => BurnView {
            fireballs: quenched(state.fireballs, fireball),
            enemies: scorched(state.enemies, enemy),
            burnt: state.burnt.push(enemy_position(state.enemies, enemy)),
        },
        None => state,
    }
}

/// The world after the first `count` collisions, worked off in order.
pub open spec fn spec_burn(
    fireballs: Seq<FireballEntity>,
    enemies: Seq<EnemyEntity>,
    collisions: Seq<CollisionStarted>,
    count: nat,
) -> BurnView
    decreases count,
{
    if count == 0 {
        BurnView { fireballs, enemies, burnt: Seq::empty() }
    } else {
        burn_one(
            spec_burn(fireballs, enemies, collisions, (count - 1) as nat),
            collisions[count - 1],
        )
    }
}

/// Tells the fireballs that are still active.
pub open spec fn active_fireball() -> spec_fn(FireballEntity) -> bool {
    |f: FireballEntity| f.fireball.active
}

/// What the collisions of one tick led to.
#[derive(Debug)]
pub struct BurnOutcome {
    /// One puff of smoke for each rat that was burnt.
    pub smoke_events: Vec<SpawnSmokeEvent>,
    /// One sound for each rat that was burnt.
    pub sounds: Vec<SoundRequest>,
}

/// The puffs of smoke for the places where something burned.
pub open spec fn smoke_at(burnt: Seq<GridPoint>) -> Seq<SpawnSmokeEvent> {
    Seq::new(burnt.len(), |k: int| SpawnSmokeEvent(burnt[k]))
}

/// The sounds for the places where something burned.
pub open spec fn burn_sounds(burnt: Seq<GridPoint>) -> Seq<SoundRequest> {
    Seq::new(burnt.len(), |k: int| SoundRequest { sound: SoundEffect::Burn, position: burnt[k] })
}

/// Works the collisions off in order. A fireball burns the first rat it
/// meets and goes out; what it meets afterwards it leaves alone. When all
/// collisions are done, the fireballs that are out are removed.
pub fn burn_stuff(
    fireballs: &mut Vec<FireballEntity>,
    enemies: &mut Vec<EnemyEntity>,
    collisions: &Vec<CollisionStarted>,
) -> (outcome: BurnOutcome)
    ensures
        ({
            let after = spec_burn(old(fireballs)@, old(enemies)@, collisions@, collisions@.len());
            &&& final(fireballs)@ == after.fireballs.filter(active_fireball())
            &&& final(enemies)@ == after.enemies
            &&& outcome.smoke_events@ == smoke_at(after.burnt)
            &&& outcome.sounds@ == burn_sounds(after.burnt)
        }),
{
    let mut outcome = BurnOutcome { smoke_events: Vec::new(), sounds: Vec::new() };
    let mut k: usize = 0;
    proof {
        assert(outcome.smoke_events@ =~= smoke_at(Seq::<GridPoint>::empty()));
        assert(outcome.sounds@ =~= burn_sounds(Seq::<GridPoint>::empty()));
    }
    while k < collisions.len()
        invariant
            k <= collisions@.len(),
            ({
                let now = spec_burn(old(fireballs)@, old(enemies)@, collisions@, k as nat);
                &&& fireballs@ == now.fireballs
                &&& enemies@ == now.enemies
                &&& outcome.smoke_events@ == smoke_at(now.burnt)
                &&& outcome.sounds@ == burn_sounds(now.burnt)
            }),
        decreases collisions@.len() - k,
    {
        let c = collisions[k];
        let ghost now = spec_burn(old(fireballs)@, old(enemies)@, collisions@, k as nat);
        let pair = if any_active_fireball(fireballs, c.0) && find_enemy(enemies, c.1).is_some() {
            Some((c.0, c.1))
        } else if find_enemy(enemies, c.0).is_some() && any_active_fireball(fireballs, c.1) {
            Some((c.1, c.0))
        } else {
            None
        };
        assert(pair == burn_pair(now.fireballs, now.enemies, c));
        if let Some((fireball, enemy)) = pair {
            let at = match find_enemy(enemies, enemy) {
                Some(index) => {
                    proof {
                        lemma_first_enemy_is_unique(enemies@, enemy, index as int);
                    }
                    enemies[index].position
                },
                None => GridPoint { x: 0, y: 0 },
            };
            scorch(enemies, enemy);
            quench(fireballs, fireball);
            outcome.smoke_events.push(SpawnSmokeEvent(at));
            outcome.sounds.push(SoundRequest { sound: SoundEffect::Burn, position: at });
            proof {
                let next = burn_one(now, c);
                assert(outcome.smoke_events@ =~= smoke_at(next.burnt));
                assert(outcome.sounds@ =~= burn_sounds(next.burnt));
            }
        }
        k += 1;
    }
    let ghost after = fireballs@;
    let mut kept: Vec<FireballEntity> = Vec::new();
    let mut i: usize = 0;
    proof {
        lemma_filter_none(after, active_fireball());
    }
    while i < fireballs.len()
        invariant
            i <= fireballs@.len(),
            fireballs@ == after,
            kept@ == after.take(i as int).filter(active_fireball()),
        decreases fireballs@.len() - i,
    {
        proof {
            lemma_filter_next(after, i as int, active_fireball());
        }
        if fireballs[i].fireball.active {
            kept.push(fireballs[i]);
        }
        i += 1;
    }
    proof {
        lemma_take_all(after);
    }
    *fireballs = kept;
    outcome
}

/// Burns every rat called `id` with one fireball.
pub fn scorch(enemies: &mut Vec<EnemyEntity>, id: EntityId)
    ensures
        final(enemies)@ == scorched(old(enemies)@, id),
{
    let mut i: usize = 0;
    while i < enemies.len()
        invariant
            i <= enemies@.len(),
            enemies@.len() == old(enemies)@.len(),
            forall|j: int| 0 <= j < i ==> (#[trigger] enemies@[j]) == scorched(old(enemies)@, id)[j],
            forall|j: int| i <= j < enemies@.len() ==> (#[trigger] enemies@[j]) == old(enemies)@[j],
        decreases enemies@.len() - i,
    {
        let mut e = enemies[i];
        if e.id == id {
            e.health.reduce(FIREBALL_DAMAGE);
            enemies.set(i, e);
        }
        i += 1;
    }
    proof {
        assert(enemies@ =~= scorched(old(enemies)@, id));
    }
}

/// Puts every fireball called `id` out.
pub fn quench(fireballs: &mut Vec<FireballEntity>, id: EntityId)
    ensures
        final(fireballs)@ == quenched(old(fireballs)@, id),
{
    let mut i: usize = 0;
    while i < fireballs.len()
        invariant
            i <= fireballs@.len(),
            fireballs@.len() == old(fireballs)@.len(),
            forall|j: int|
                0 <= j < i ==> (#[trigger] fireballs@[j]) == quenched(old(fireballs)@, id)[j],
            forall|j: int| i <= j < fireballs@.len() ==> (#[trigger] fireballs@[j]) == old(fireballs)@[j],
        decreases fireballs@.len() - i,
    {
        let mut f = fireballs[i];
        if f.id == id {
            f.fireball.deactivate();
            fireballs.set(i, f);
        }
        i += 1;
    }
    proof {
        assert(fireballs@ =~= quenched(old(fireballs)@, id));
    }
}

/// A fireball hits once. After an active fireball `fireball` burnt a rat,
/// a further collision of that fireball changes nothing, whatever the other
/// body is, as long as `fireball` names no rat and the other body is not
/// an active fireball itself.
pub proof fn lemma_fireball_hits_once(
    state: BurnView,
    first: CollisionStarted,
    fireball: EntityId,
    enemy: EntityId,
    other: EntityId,
)
    requires
        burn_pair(state.fireballs, state.enemies, first) == Some((fireball, enemy)),
        !has_enemy(state.enemies, fireball),
        !has_active_fireball(state.fireballs, other),
    ensures
        !has_active_fireball(burn_one(state, first).fireballs, fireball),
        burn_one(burn_one(state, first), CollisionStarted(fireball, other)) == burn_one(
            state,
            first,
        ),
        burn_one(burn_one(state, first), CollisionStarted(other, fireball)) == burn_one(
            state,
            first,
        ),
{
    let after = burn_one(state, first);
    assert(after.fireballs == quenched(state.fireballs, fireball));
    assert(after.enemies == scorched(state.enemies, enemy));
    if has_active_fireball(after.fireballs, fireball) {
        let i = choose|i: int|
            0 <= i < after.fireballs.len() && (#[trigger] after.fireballs[i]).id == fireball
                && after.fireballs[i].fireball.active;
        assert(state.fireballs[i].id == fireball);
        assert(false);
    }
    if has_active_fireball(after.fireballs, other) {
        let i = choose|i: int|
            0 <= i < after.fireballs.len() && (#[trigger] after.fireballs[i]).id == other
                && after.fireballs[i].fireball.active;
        assert(state.fireballs[i].id == other && state.fireballs[i].fireball.active);
        assert(false);
    }
    if has_enemy(after.enemies, fireball) {
        let i = choose|i: int|
            0 <= i < after.enemies.len() && (#[trigger] after.enemies[i]).id == fireball;
        assert(state.enemies[i].id == fireball);
        assert(false);
    }
}

/// A collision in which no active fireball takes part changes nothing.
pub proof fn lemma_spent_fireball_burns_nothing(state: BurnView, collision: CollisionStarted)
    requires
        !has_active_fireball(state.fireballs, collision.0),
        !has_active_fireball(state.fireballs, collision.1),
    ensures
        burn_one(state, collision) == state,
{
}

} // verus!
