//! The player, and the path a thrown seed takes: straight to where the
//! player pointed, or relayed from gnome to gnome.

use vstd::prelude::*;
use crate::geometry::{distance_squared, lemma_distance_squared_bounds, within_reach, GridPoint};
use crate::plant::PlantType;
use crate::player_animation::{started, PlayerAnimation, PlayerAnimationState};
use pathfinding::prelude::astar;

verus! {

/// How far the player throws a seed, in pixels.
pub const PLAYER_THROW_RADIUS_PX: u32 = 240;

pub const PLAYER_THROW_MIN_DIST_PX: u32 = 30;

/// What makes an entity the player.
#[derive(Clone, Copy, Debug, PartialEq, Eq, Structural)]
pub struct Player;

/// The player in the world.
#[derive(Clone, Copy, Debug, PartialEq, Eq, Structural)]
pub struct PlayerEntity {
    pub player: Player,
    pub position: GridPoint,
    pub animation: PlayerAnimation,
}

/// The player as the game starts: idling, in the middle of the world.
pub open spec fn fresh_player() -> PlayerEntity {
    PlayerEntity {
        player: Player,
        position: GridPoint { x: 0, y: 0 },
        animation: started(PlayerAnimationState::Idling),
    }
}

/// The player as the game starts: idling, in the middle of the world.
pub fn player() -> (p: PlayerEntity)
    ensures
        p == fresh_player(),
{
    PlayerEntity { player: Player, position: GridPoint { x: 0, y: 0 }, animation: PlayerAnimation::new() }
}

/// The player pointed at a place of the world.
#[derive(Clone, Copy, Debug, PartialEq, Eq, Structural)]
pub struct PlayerClickEvent(pub GridPoint);

/// Asks for a seed to be thrown along `path`, whose first point is where the
/// seed starts.
#[derive(Clone, Debug)]
pub struct ThrowSeedEvent {
    pub from_player: bool,
    pub path: Vec<GridPoint>,
    pub seed_type: PlantType,
}

/// A throw of a seed, as mathematical values.
pub struct ThrowSeedView {
    pub from_player: bool,
    pub path: Seq<GridPoint>,
    pub seed_type: PlantType,
}

impl View for ThrowSeedEvent {
    type V = ThrowSeedView;

    open spec fn view(&self) -> ThrowSeedView {
        ThrowSeedView { from_player: self.from_player, path: self.path@, seed_type: self.seed_type }
    }
}

/// The throws of a queue, as mathematical values.
pub open spec fn throws_view(throws: Seq<ThrowSeedEvent>) -> Seq<ThrowSeedView> {
    Seq::new(throws.len(), |i: int| throws[i]@)
}

/// Square of the distance over which a seed can be thrown on from `from`:
/// `origin_radius` at the origin, `midpoint_radius` anywhere else.
pub open spec fn reach_squared(
    from: GridPoint,
    origin: GridPoint,
    origin_radius: u32,
    midpoint_radius: u32,
) -> int {
    if from == origin {
        origin_radius * origin_radius
    } else {
        midpoint_radius * midpoint_radius
    }
}

/// A seed at `from` can be thrown to the different place `to`.
pub open spec fn can_throw(
    from: GridPoint,
    to: GridPoint,
    origin: GridPoint,
    origin_radius: u32,
    midpoint_radius: u32,
) -> bool {
    from != to && distance_squared(from, to) <= reach_squared(
        from,
        origin,
        origin_radius,
        midpoint_radius,
    )
}

/// `path` is a route of throws: it starts at `origin`, ends at
/// `destination`, and each of its hops lands on one of `stops` within reach
/// of where it started.
pub open spec fn is_route(
    path: Seq<GridPoint>,
    origin: GridPoint,
    stops: Seq<GridPoint>,
    destination: GridPoint,
    origin_radius: u32,
    midpoint_radius: u32,
) -> bool {
    &&& path.len() >= 1
    &&& path[0] == origin
    &&& path[path.len() - 1] == destination
    &&& forall|i: int|
        0 <= i < path.len() - 1 ==> stops.contains(#[trigger] path[i + 1]) && can_throw(
            path[i],
            path[i + 1],
            origin,
            origin_radius,
            midpoint_radius,
        )
}

/// How far a seed is thrown from the origin: as far as the player throws,
/// or as far as a relay throws where a midpoint stands on the origin and
/// throws farther. A relay that stands where the player stands is reached
/// by a throw of no length, and throws the seed on from there.
pub open spec fn reach_at_origin(
    origin: GridPoint,
    midpoints: Seq<GridPoint>,
    origin_radius: u32,
    midpoint_radius: u32,
) -> u32 {
    if midpoints.contains(origin) && midpoint_radius > origin_radius {
        midpoint_radius
    } else {
        origin_radius
    }
}

/// `path` is a throw path: a route from `origin` to `destination` that
/// lands on midpoints only, until its last hop lands on the destination.
/// The player throws `origin_radius` far and each midpoint
/// `midpoint_radius`; the path names each place once, so a midpoint on the
/// origin shows in the reach of the origin and not as a hop.
pub open spec fn is_throw_path(
    path: Seq<GridPoint>,
    origin: GridPoint,
    midpoints: Seq<GridPoint>,
    destination: GridPoint,
    origin_radius: u32,
    midpoint_radius: u32,
) -> bool {
    is_route(
        path,
        origin,
        midpoints.push(destination),
        destination,
        reach_at_origin(origin, midpoints, origin_radius, midpoint_radius),
        midpoint_radius,
    )
}

/// The destination can be reached from the origin by some throw path.
pub open spec fn throw_reachable(
    origin: GridPoint,
    midpoints: Seq<GridPoint>,
    destination: GridPoint,
    origin_radius: u32,
    midpoint_radius: u32,
) -> bool {
    exists|path: Seq<GridPoint>|
        is_throw_path(path, origin, midpoints, destination, origin_radius, midpoint_radius)
}

/// The midpoint `m` can be reached from the origin by throws that land on
/// midpoints only.
pub open spec fn relay_reachable(
    origin: GridPoint,
    midpoints: Seq<GridPoint>,
    m: GridPoint,
    origin_radius: u32,
    midpoint_radius: u32,
) -> bool {
    exists|path: Seq<GridPoint>|
        is_route(
            path,
            origin,
            midpoints,
            m,
            reach_at_origin(origin, midpoints, origin_radius, midpoint_radius),
            midpoint_radius,
        )
}

/// Sum of the squared lengths of the hops of `path`.
pub open spec fn route_cost(path: Seq<GridPoint>) -> int
    decreases path.len(),
{
    if path.len() <= 1 {
        0
    } else {
        route_cost(path.drop_last()) + distance_squared(path[path.len() - 2], path[path.len() - 1])
    }
}

/// Whether two points are the same.
pub fn same_point(a: &GridPoint, b: &GridPoint) -> (same: bool)
    ensures
        same == (*a == *b),
{
    a.x == b.x && a.y == b.y
}

/// The throws that can follow on a stay at `from`, among the first `count`
/// of `stops`: each stop within reach, with the squared length of the throw.
pub open spec fn spec_successors(
    from: GridPoint,
    origin: GridPoint,
    stops: Seq<GridPoint>,
    origin_radius: u32,
    midpoint_radius: u32,
    count: nat,
) -> Seq<(GridPoint, u128)>
    decreases count,
{
    if count == 0 {
        Seq::empty()
    } else {
        let before = spec_successors(
            from,
            origin,
            stops,
            origin_radius,
            midpoint_radius,
            (count - 1) as nat,
        );
        if can_throw(from, stops[count - 1], origin, origin_radius, midpoint_radius) {
            before.push((stops[count - 1], distance_squared(from, stops[count - 1]) as u128))
        } else {
            before
        }
    }
}

/// The throws that can follow on a stay at `from`: each of `stops` within
/// reach, in their order, with the squared length of the throw.
pub fn throw_successors(
    from: &GridPoint,
    origin: &GridPoint,
    stops: &Vec<GridPoint>,
    origin_radius: u32,
    midpoint_radius: u32,
) -> (next: Vec<(GridPoint, u128)>)
    ensures
        next@ == spec_successors(
            *from,
            *origin,
            stops@,
            origin_radius,
            midpoint_radius,
            stops@.len(),
        ),
{
    let radius: u128 = if same_point(from, origin) {
        origin_radius as u128
    } else {
        midpoint_radius as u128
    };
    assert(0 <= radius * radius <= 0xFFFF_FFFF_FFFF_FFFF) by (nonlinear_arith)
        requires
            0 <= radius <= 0xFFFF_FFFF,
    ;
    let reach: u128 = radius * radius;
    let mut next: Vec<(GridPoint, u128)> = Vec::new();
    let mut i: usize = 0;
    while i < stops.len()
        invariant
            i <= stops@.len(),
            reach == reach_squared(*from, *origin, origin_radius, midpoint_radius),
            next@ == spec_successors(
                *from,
                *origin,
                stops@,
                origin_radius,
                midpoint_radius,
                i as nat,
            ),
        decreases stops@.len() - i,
    {
        let to = stops[i];
        let cost = from.distance_squared(&to);
        if !same_point(from, &to) && cost <= reach {
            next.push((to, cost));
        }
        i += 1;
    }
    next
}

/// The outcome of the shortest-path search of the `pathfinding` crate on the
/// graph of throws: the route found and its cost, or nothing.
///
/// Which of several routes the search settles on follows from the order in
/// which it visits the stops; it is the same for the same arguments.
pub uninterp spec fn astar_outcome(
    origin: GridPoint,
    stops: Seq<GridPoint>,
    destination: GridPoint,
    origin_radius: u32,
    midpoint_radius: u32,
) -> Option<(Seq<GridPoint>, int)>;

/// The outcome of a search as mathematical values.
pub open spec fn search_view(found: Option<(Vec<GridPoint>, u128)>) -> Option<(Seq<GridPoint>, int)> {
    match found {
        Some((path, cost)) => Some((path@, cost as int)),
        None => None,
    }
}

/// Searches a route of throws from `origin` to `destination` over `stops`.
///
/// Calls `pathfinding::directed::astar::astar`, starting at `origin`, with
/// [`throw_successors`] as the successors of a node, the squared distance to
/// `destination` as the heuristic, and equality with `destination` as the
/// test for success. Nothing is proved of the search; the contract says what
/// the crate documents and what its source shows for a finite graph with
/// costs that are not negative: the search returns a route if and only if
/// one exists; the route starts at the start, ends where the test succeeds,
/// follows successors only and holds no node twice; the cost is the sum of
/// the costs along it. Costs are kept in `u128`, which no sum along a route
/// over stops that fit in memory can overflow.
#[verifier::external_body]
fn astar_search(
    origin: &GridPoint,
    stops: &Vec<GridPoint>,
    destination: &GridPoint,
    origin_radius: u32,
    midpoint_radius: u32,
) -> (found: Option<(Vec<GridPoint>, u128)>)
    ensures
        search_view(found) == astar_outcome(
            *origin,
            stops@,
            *destination,
            origin_radius,
            midpoint_radius,
        ),
        found.is_some() <==> exists|path: Seq<GridPoint>|
            is_route(path, *origin, stops@, *destination, origin_radius, midpoint_radius),
        found matches Some((path, cost)) ==> is_route(
            path@,
            *origin,
            stops@,
            *destination,
            origin_radius,
            midpoint_radius,
        ) && path@.no_duplicates() && cost == route_cost(path@),
{
    astar(
        origin,
        |p| throw_successors(p, origin, stops, origin_radius, midpoint_radius),
        |p| p.distance_squared(destination),
        |p| same_point(p, destination),
    )
}

/// The waypoints of the route that a search found.
pub open spec fn spec_waypoints(found: Option<(Seq<GridPoint>, int)>) -> Option<Seq<GridPoint>> {
    match found {
        Some((path, _)) => Some(path),
        None => None,
    }
}

/// The waypoints as a mathematical value.
pub open spec fn waypoints_view(path: Option<Vec<GridPoint>>) -> Option<Seq<GridPoint>> {
    match path {
        Some(p) => Some(p@),
        None => None,
    }
}

/// Keeps the waypoints of the route that a search found, and drops its cost.
pub fn route_waypoints(found: Option<(Vec<GridPoint>, u128)>) -> (path: Option<Vec<GridPoint>>)
    ensures
        waypoints_view(path) == spec_waypoints(search_view(found)),
        path.is_some() == found.is_some(),
        path matches Some(p) ==> found matches Some((q, _)) && p@ == q@,
{
    match found {
        Some((path, _)) => Some(path),
        None => None,
    }
}

/// The path that the search settles on for a throw from `origin` to
/// `destination` by way of `midpoints`, or nothing where there is none.
pub open spec fn throw_route(
    origin: GridPoint,
    midpoints: Seq<GridPoint>,
    destination: GridPoint,
    origin_radius: u32,
    midpoint_radius: u32,
) -> Option<Seq<GridPoint>> {
    spec_waypoints(
        astar_outcome(
            origin,
            midpoints.push(destination),
            destination,
            reach_at_origin(origin, midpoints, origin_radius, midpoint_radius),
            midpoint_radius,
        ),
    )
}

/// How far a seed is thrown from the origin, given the midpoints.
pub fn origin_reach(
    origin: &GridPoint,
    midpoints: &Vec<GridPoint>,
    origin_radius: u32,
    midpoint_radius: u32,
) -> (reach: u32)
    ensures
        reach == reach_at_origin(*origin, midpoints@, origin_radius, midpoint_radius),
{
    if midpoint_radius <= origin_radius {
        return origin_radius;
    }
    let mut i: usize = 0;
    while i < midpoints.len()
        invariant
            i <= midpoints@.len(),
            midpoint_radius > origin_radius,
            forall|j: int| 0 <= j < i ==> midpoints@[j] != *origin,
        decreases midpoints@.len() - i,
    {
        if same_point(&midpoints[i], origin) {
            assert(midpoints@[i as int] == *origin);
            return midpoint_radius;
        }
        i += 1;
    }
    origin_radius
}

/// The path of a seed thrown from `origin` to `destination`, where each of
/// `midpoints` throws the seed on: the player reaches `origin_radius` far, a
/// midpoint `midpoint_radius`. `None` where the destination is out of reach
/// even by relay.
///
/// The path runs from the origin to the destination, both in it, and names
/// no place twice. Which path is taken among several is what the search of
/// the `pathfinding` crate settles on, with squared distances as costs and
/// as heuristic.
pub fn throw_path(
    origin: GridPoint,
    midpoints: Vec<GridPoint>,
    destination: GridPoint,
    origin_radius: u32,
    midpoint_radius: u32,
) -> (path: Option<Vec<GridPoint>>)
    ensures
        path.is_some() <==> throw_reachable(
            origin,
            midpoints@,
            destination,
            origin_radius,
            midpoint_radius,
        ),
        path.is_some() <==> within_some_reach(
            origin,
            midpoints@,
            destination,
            origin_radius,
            midpoint_radius,
        ),
        path matches Some(p) ==> is_throw_path(
            p@,
            origin,
            midpoints@,
            destination,
            origin_radius,
            midpoint_radius,
        ) && p@.no_duplicates(),
        waypoints_view(path) == throw_route(
            origin,
            midpoints@,
            destination,
            origin_radius,
            midpoint_radius,
        ),
{
    let reach = origin_reach(&origin, &midpoints, origin_radius, midpoint_radius);
    let mut not_origin = midpoints;
    not_origin.push(destination);
    let found = astar_search(&origin, &not_origin, &destination, reach, midpoint_radius);
    proof {
        assert(not_origin@ == midpoints@.push(destination));
        if found.is_some() {
            assert(is_throw_path(
                found.unwrap().0@,
                origin,
                midpoints@,
                destination,
                origin_radius,
                midpoint_radius,
            ));
        }
        if throw_reachable(origin, midpoints@, destination, origin_radius, midpoint_radius) {
            let w = choose|w: Seq<GridPoint>|
                is_throw_path(w, origin, midpoints@, destination, origin_radius, midpoint_radius);
            assert(is_route(w, origin, not_origin@, destination, reach, midpoint_radius));
        }
        lemma_reachable_iff_within_some_reach(
            origin,
            midpoints@,
            destination,
            origin_radius,
            midpoint_radius,
        );
    }
    route_waypoints(found)
}

/// The destination is the origin, or one throw away from the origin or
/// from a midpoint that relays reach.
pub open spec fn one_throw_away(
    origin: GridPoint,
    midpoints: Seq<GridPoint>,
    destination: GridPoint,
    origin_radius: u32,
    midpoint_radius: u32,
) -> bool {
    let reach = reach_at_origin(origin, midpoints, origin_radius, midpoint_radius);
    ||| destination == origin
    ||| can_throw(origin, destination, origin, reach, midpoint_radius)
    ||| exists|i: int|
        0 <= i < midpoints.len() && relay_reachable(
            origin,
            midpoints,
            #[trigger] midpoints[i],
            origin_radius,
            midpoint_radius,
        ) && can_throw(midpoints[i], destination, origin, reach, midpoint_radius)
}

/// The destination lies within the player's reach of the origin, or within
/// a relay's reach of a midpoint that relays reach.
pub open spec fn within_some_reach(
    origin: GridPoint,
    midpoints: Seq<GridPoint>,
    destination: GridPoint,
    origin_radius: u32,
    midpoint_radius: u32,
) -> bool {
    ||| within_reach(origin, destination, origin_radius as int)
    ||| exists|i: int|
        0 <= i < midpoints.len() && relay_reachable(
            origin,
            midpoints,
            #[trigger] midpoints[i],
            origin_radius,
            midpoint_radius,
        ) && within_reach(midpoints[i], destination, midpoint_radius as int)
}

/// A point other than `extra` that is among `stops` with `extra` added is
/// among `stops`.
proof fn lemma_contains_without_last(stops: Seq<GridPoint>, extra: GridPoint, x: GridPoint)
    requires
        stops.push(extra).contains(x),
        x != extra,
    ensures
        stops.contains(x),
{
    let i = choose|i: int| 0 <= i < stops.push(extra).len() && stops.push(extra)[i] == x;
    assert(i < stops.len());
    assert(stops[i] == x);
}

/// A point among `stops` is still among them after `extra` is added.
proof fn lemma_contains_with_last(stops: Seq<GridPoint>, extra: GridPoint, x: GridPoint)
    requires
        stops.contains(x) || x == extra,
    ensures
        stops.push(extra).contains(x),
{
    if x == extra {
        assert(stops.push(extra)[stops.len() as int] == x);
    } else {
        let i = choose|i: int| 0 <= i < stops.len() && stops[i] == x;
        assert(stops.push(extra)[i] == x);
    }
}

/// A route stays a route when a stop is added to land on.
proof fn lemma_route_with_more_stops(
    path: Seq<GridPoint>,
    origin: GridPoint,
    stops: Seq<GridPoint>,
    extra: GridPoint,
    destination: GridPoint,
    origin_radius: u32,
    midpoint_radius: u32,
)
    requires
        is_route(path, origin, stops, destination, origin_radius, midpoint_radius),
    ensures
        is_route(path, origin, stops.push(extra), destination, origin_radius, midpoint_radius),
{
    assert forall|i: int| 0 <= i < path.len() - 1 implies stops.push(extra).contains(
        #[trigger] path[i + 1],
    ) by {
        lemma_contains_with_last(stops, extra, path[i + 1]);
    }
}

/// A route that is thrown on once more is a route to where the throw lands.
proof fn lemma_route_extends(
    path: Seq<GridPoint>,
    origin: GridPoint,
    stops: Seq<GridPoint>,
    from: GridPoint,
    to: GridPoint,
    origin_radius: u32,
    midpoint_radius: u32,
)
    requires
        is_route(path, origin, stops, from, origin_radius, midpoint_radius),
        stops.contains(to),
        can_throw(from, to, origin, origin_radius, midpoint_radius),
    ensures
        is_route(path.push(to), origin, stops, to, origin_radius, midpoint_radius),
{
    let longer = path.push(to);
    assert forall|i: int| 0 <= i < longer.len() - 1 implies stops.contains(
        #[trigger] longer[i + 1],
    ) && can_throw(longer[i], longer[i + 1], origin, origin_radius, midpoint_radius) by {
        if i < path.len() - 1 {
            assert(longer[i + 1] == path[i + 1]);
            assert(longer[i] == path[i]);
        } else {
            assert(longer[i] == from);
            assert(longer[i + 1] == to);
        }
    }
}

/// Every throw path ends one throw away from the origin or from a midpoint
/// that relays reach.
proof fn lemma_throw_path_ends_one_throw_away(
    path: Seq<GridPoint>,
    origin: GridPoint,
    midpoints: Seq<GridPoint>,
    destination: GridPoint,
    origin_radius: u32,
    midpoint_radius: u32,
)
    requires
        is_throw_path(path, origin, midpoints, destination, origin_radius, midpoint_radius),
    ensures
        one_throw_away(origin, midpoints, destination, origin_radius, midpoint_radius),
    decreases path.len(),
{
    let n = path.len() as int;
    let stops = midpoints.push(destination);
    let reach = reach_at_origin(origin, midpoints, origin_radius, midpoint_radius);
    if n == 1 {
    } else {
        let m = path[n - 2];
        assert(stops.contains(path[(n - 2) + 1]) && can_throw(
            path[n - 2],
            path[(n - 2) + 1],
            origin,
            reach,
            midpoint_radius,
        ));
        if m == origin {
        } else if exists|j: int| 1 <= j <= n - 2 && path[j] == destination {
            let j = choose|j: int| 1 <= j <= n - 2 && path[j] == destination;
            let shorter = path.subrange(0, j + 1);
            assert forall|i: int| 0 <= i < shorter.len() - 1 implies stops.contains(
                #[trigger] shorter[i + 1],
            ) && can_throw(shorter[i], shorter[i + 1], origin, reach, midpoint_radius) by {
                assert(shorter[i + 1] == path[i + 1]);
                assert(shorter[i] == path[i]);
            }
            lemma_throw_path_ends_one_throw_away(
                shorter,
                origin,
                midpoints,
                destination,
                origin_radius,
                midpoint_radius,
            );
        } else {
            let relay = path.drop_last();
            assert forall|i: int| 0 <= i < relay.len() - 1 implies midpoints.contains(
                #[trigger] relay[i + 1],
            ) && can_throw(relay[i], relay[i + 1], origin, reach, midpoint_radius) by {
                assert(relay[i + 1] == path[i + 1]);
                assert(relay[i] == path[i]);
                assert(stops.contains(path[i + 1]));
                assert(path[i + 1] != destination);
                lemma_contains_without_last(midpoints, destination, path[i + 1]);
            }
            assert(is_route(relay, origin, midpoints, m, reach, midpoint_radius));
            assert(n - 2 >= 1);
            assert(relay[(n - 3) + 1] == m);
            assert(midpoints.contains(m));
            let k = choose|k: int| 0 <= k < midpoints.len() && midpoints[k] == m;
            assert(relay_reachable(origin, midpoints, midpoints[k], origin_radius, midpoint_radius));
        }
    }
}

/// The destination can be reached exactly when it is the origin, or one
/// throw away from the origin, or one throw away from a midpoint that can
/// itself be reached by throws from midpoint to midpoint. The origin throws
/// as far as [`reach_at_origin`] says.
pub proof fn lemma_reachable_iff_one_throw_away(
    origin: GridPoint,
    midpoints: Seq<GridPoint>,
    destination: GridPoint,
    origin_radius: u32,
    midpoint_radius: u32,
)
    ensures
        throw_reachable(origin, midpoints, destination, origin_radius, midpoint_radius)
            <==> one_throw_away(origin, midpoints, destination, origin_radius, midpoint_radius),
{
    let stops = midpoints.push(destination);
    let reach = reach_at_origin(origin, midpoints, origin_radius, midpoint_radius);
    if throw_reachable(origin, midpoints, destination, origin_radius, midpoint_radius) {
        let path = choose|path: Seq<GridPoint>|
            is_throw_path(path, origin, midpoints, destination, origin_radius, midpoint_radius);
        lemma_throw_path_ends_one_throw_away(
            path,
            origin,
            midpoints,
            destination,
            origin_radius,
            midpoint_radius,
        );
    }
    if one_throw_away(origin, midpoints, destination, origin_radius, midpoint_radius) {
        lemma_contains_with_last(midpoints, destination, destination);
        if destination == origin {
            let path = seq![origin];
            assert(is_throw_path(
                path,
                origin,
                midpoints,
                destination,
                origin_radius,
                midpoint_radius,
            ));
        } else if can_throw(origin, destination, origin, reach, midpoint_radius) {
            let start = seq![origin];
            assert(is_route(start, origin, stops, origin, reach, midpoint_radius));
            lemma_route_extends(start, origin, stops, origin, destination, reach, midpoint_radius);
            assert(is_throw_path(
                start.push(destination),
                origin,
                midpoints,
                destination,
                origin_radius,
                midpoint_radius,
            ));
        } else {
            let i = choose|i: int|
                0 <= i < midpoints.len() && relay_reachable(
                    origin,
                    midpoints,
                    #[trigger] midpoints[i],
                    origin_radius,
                    midpoint_radius,
                ) && can_throw(midpoints[i], destination, origin, reach, midpoint_radius);
            let m = midpoints[i];
            let relay = choose|relay: Seq<GridPoint>|
                is_route(relay, origin, midpoints, m, reach, midpoint_radius);
            lemma_route_with_more_stops(
                relay,
                origin,
                midpoints,
                destination,
                m,
                reach,
                midpoint_radius,
            );
            lemma_route_extends(relay, origin, stops, m, destination, reach, midpoint_radius);
            assert(is_throw_path(
                relay.push(destination),
                origin,
                midpoints,
                destination,
                origin_radius,
                midpoint_radius,
            ));
        }
    }
}

/// The destination can be reached exactly when it lies within the player's
/// reach of the origin, or within a relay's reach of a midpoint that can
/// itself be reached. This holds for every origin, destination and set of
/// midpoints, a midpoint on the origin or on the destination among them.
pub proof fn lemma_reachable_iff_within_some_reach(
    origin: GridPoint,
    midpoints: Seq<GridPoint>,
    destination: GridPoint,
    origin_radius: u32,
    midpoint_radius: u32,
)
    ensures
        throw_reachable(origin, midpoints, destination, origin_radius, midpoint_radius)
            <==> within_some_reach(origin, midpoints, destination, origin_radius, midpoint_radius),
{
    let reach = reach_at_origin(origin, midpoints, origin_radius, midpoint_radius);
    lemma_reachable_iff_one_throw_away(
        origin,
        midpoints,
        destination,
        origin_radius,
        midpoint_radius,
    );
    lemma_distance_squared_bounds(origin, destination);
    assert(0 <= origin_radius * origin_radius <= reach * reach) by (nonlinear_arith)
        requires
            0 <= origin_radius <= reach,
    ;
    if midpoints.contains(origin) {
        // The midpoint on the origin is reached by the route that stays put.
        assert(midpoint_radius * midpoint_radius <= reach * reach) by (nonlinear_arith)
            requires
                0 <= midpoint_radius <= reach,
        ;
        assert(is_route(seq![origin], origin, midpoints, origin, reach, midpoint_radius));
        assert(relay_reachable(origin, midpoints, origin, origin_radius, midpoint_radius));
    }
    if one_throw_away(origin, midpoints, destination, origin_radius, midpoint_radius) {
        if destination == origin {
        } else if can_throw(origin, destination, origin, reach, midpoint_radius) {
            if reach != origin_radius {
                let k = choose|k: int| 0 <= k < midpoints.len() && midpoints[k] == origin;
                assert(relay_reachable(
                    origin,
                    midpoints,
                    midpoints[k],
                    origin_radius,
                    midpoint_radius,
                ) && within_reach(midpoints[k], destination, midpoint_radius as int));
            }
        } else {
            let i = choose|i: int|
                0 <= i < midpoints.len() && relay_reachable(
                    origin,
                    midpoints,
                    #[trigger] midpoints[i],
                    origin_radius,
                    midpoint_radius,
                ) && can_throw(midpoints[i], destination, origin, reach, midpoint_radius);
            if midpoints[i] == origin {
                assert(can_throw(origin, destination, origin, reach, midpoint_radius));
            } else {
                assert(within_reach(midpoints[i], destination, midpoint_radius as int));
            }
        }
    }
    if within_some_reach(origin, midpoints, destination, origin_radius, midpoint_radius) {
        if within_reach(origin, destination, origin_radius as int) {
        } else {
            let i = choose|i: int|
                0 <= i < midpoints.len() && relay_reachable(
                    origin,
                    midpoints,
                    #[trigger] midpoints[i],
                    origin_radius,
                    midpoint_radius,
                ) && within_reach(midpoints[i], destination, midpoint_radius as int);
            let m = midpoints[i];
            assert(midpoints.contains(m));
            if m == destination {
                let relay = choose|relay: Seq<GridPoint>|
                    is_route(relay, origin, midpoints, m, reach, midpoint_radius);
                lemma_route_with_more_stops(
                    relay,
                    origin,
                    midpoints,
                    destination,
                    m,
                    reach,
                    midpoint_radius,
                );
                assert(is_throw_path(
                    relay,
                    origin,
                    midpoints,
                    destination,
                    origin_radius,
                    midpoint_radius,
                ));
            } else {
                assert(can_throw(m, destination, origin, reach, midpoint_radius));
            }
        }
    }
}

} // verus!
