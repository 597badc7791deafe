//! Points of the pixel grid and the distance tests the rules are built on.

use vstd::prelude::*;

verus! {

/// A position on the pixel grid of the farm.
#[derive(Clone, Copy, Debug, PartialEq, Eq, Hash, Structural)]
pub struct GridPoint {
    pub x: i32,
    pub y: i32,
}

/// The nearest value to `v` that an `i32` coordinate can hold.
pub open spec fn clamp_coordinate(v: int) -> int {
    if v < i32::MIN {
        i32::MIN as int
    } else if v > i32::MAX {
        i32::MAX as int
    } else {
        v
    }
}

/// Squared Euclidean distance between two points, as a mathematical integer.
pub open spec fn distance_squared(a: GridPoint, b: GridPoint) -> int {
    (a.x - b.x) * (a.x - b.x) + (a.y - b.y) * (a.y - b.y)
}

/// `b` lies strictly inside the circle of the given radius around `a`.
pub open spec fn strictly_within(a: GridPoint, b: GridPoint, radius: int) -> bool {
    distance_squared(a, b) < radius * radius
}

/// `b` lies inside or on the circle of the given radius around `a`.
pub open spec fn within_reach(a: GridPoint, b: GridPoint, radius: int) -> bool {
    distance_squared(a, b) <= radius * radius
}

/// Squared distances are never negative.
pub proof fn lemma_distance_squared_bounds(a: GridPoint, b: GridPoint)
    ensures
        0 <= distance_squared(a, b) <= 0x2_0000_0000_0000_0000,
        distance_squared(a, b) == distance_squared(b, a),
        distance_squared(a, b) == 0 <==> a == b,
{
    let dx = a.x - b.x;
    let dy = a.y - b.y;
    assert(0 <= dx * dx <= 0x1_0000_0000_0000_0000) by (nonlinear_arith)
        requires
            -0x1_0000_0000 < dx < 0x1_0000_0000,
    ;
    assert(0 <= dy * dy <= 0x1_0000_0000_0000_0000) by (nonlinear_arith)
        requires
            -0x1_0000_0000 < dy < 0x1_0000_0000,
    ;
    assert((b.x - a.x) * (b.x - a.x) == dx * dx) by (nonlinear_arith)
        requires
            dx == a.x - b.x,
    ;
    assert((b.y - a.y) * (b.y - a.y) == dy * dy) by (nonlinear_arith)
        requires
            dy == a.y - b.y,
    ;
    assert(dx * dx == 0 <==> dx == 0) by (nonlinear_arith);
    assert(dy * dy == 0 <==> dy == 0) by (nonlinear_arith);
}

impl GridPoint {
    /// The point with the given coordinates.
    pub fn new(x: i32, y: i32) -> (p: GridPoint)
        ensures
            p == (GridPoint { x, y }),
    {
        GridPoint { x, y }
    }

    /// Squared Euclidean distance to `other`.
    pub fn distance_squared(&self, other: &GridPoint) -> (d: u128)
        ensures
            d == distance_squared(*self, *other),
    {
        proof {
            lemma_distance_squared_bounds(*self, *other);
        }
        let dx: i128 = self.x as i128 - other.x as i128;
        let dy: i128 = self.y as i128 - other.y as i128;
        assert(0 <= dx * dx <= 0x1_0000_0000_0000_0000) by (nonlinear_arith)
            requires
                -0x1_0000_0000 < dx < 0x1_0000_0000,
        ;
        assert(0 <= dy * dy <= 0x1_0000_0000_0000_0000) by (nonlinear_arith)
            requires
                -0x1_0000_0000 < dy < 0x1_0000_0000,
        ;
        (dx * dx + dy * dy) as u128
    }

    /// Whether `other` lies strictly inside the circle of `radius` around `self`.
    pub fn is_strictly_within(&self, other: &GridPoint, radius: u32) -> (inside: bool)
        ensures
            inside == strictly_within(*self, *other, radius as int),
    {
        let r: u128 = radius as u128;
        assert(0 <= r * r <= 0xFFFF_FFFF_FFFF_FFFF) by (nonlinear_arith)
            requires
                0 <= r <= 0xFFFF_FFFF,
        ;
        self.distance_squared(other) < r * r
    }

    /// Whether `other` lies inside or on the circle of `radius` around `self`.
    pub fn is_within_reach(&self, other: &GridPoint, radius: u32) -> (inside: bool)
        ensures
            inside == within_reach(*self, *other, radius as int),
    {
        let r: u128 = radius as u128;
        assert(0 <= r * r <= 0xFFFF_FFFF_FFFF_FFFF) by (nonlinear_arith)
            requires
                0 <= r <= 0xFFFF_FFFF,
        ;
        self.distance_squared(other) <= r * r
    }

    /// The point moved by `(dx, dy)`, each coordinate kept inside the grid.
    pub fn translated(&self, dx: i32, dy: i32) -> (p: GridPoint)
        ensures
            p.x == clamp_coordinate(self.x + dx),
            p.y == clamp_coordinate(self.y + dy),
    {
        GridPoint { x: clamp_sum(self.x, dx), y: clamp_sum(self.y, dy) }
    }
}

/// `a + b`, kept inside the range of a coordinate.
pub fn clamp_sum(a: i32, b: i32) -> (r: i32)
    ensures
        r == clamp_coordinate(a + b),
{
    let wide: i64 = a as i64 + b as i64;
    if wide < i32::MIN as i64 {
        i32::MIN
    } else if wide > i32::MAX as i64 {
        i32::MAX
    } else {
        wide as i32
    }
}

} // verus!
