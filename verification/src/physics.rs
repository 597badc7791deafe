//! Collision layers: which kinds of body may overlap which.

use vstd::prelude::*;

verus! {

/// The layer a body is filed under.
#[derive(Clone, Copy, Debug, PartialEq, Eq, Structural)]
pub enum GameLayer {
    /// The layer of bodies that were given no other.
    Default,
    Enemy,
    Plant,
    Fireball,
}

impl Default for GameLayer {
    fn default() -> (layer: GameLayer)
        ensures
            layer == GameLayer::Default,
    {
        GameLayer::Default
    }
}

impl GameLayer {
    /// Position of the layer's bit in a layer mask.
    pub open spec fn bit_index(self) -> nat {
        match self {
            GameLayer::Default => 0,
            GameLayer::Enemy => 1,
            GameLayer::Plant => 2,
            GameLayer::Fireball => 3,
        }
    }

    /// Whether a body filed under `self` reports overlaps with bodies of `other`.
    ///
    /// Plants meet plants and rats; rats meet plants, rats and fireballs;
    /// fireballs meet rats only.
    pub open spec fn collides_with(self, other: GameLayer) -> bool {
        match self {
            GameLayer::Default => false,
            GameLayer::Plant => other == GameLayer::Plant || other == GameLayer::Enemy,
            GameLayer::Enemy => other == GameLayer::Plant || other == GameLayer::Enemy || other
                == GameLayer::Fireball,
            GameLayer::Fireball => other == GameLayer::Enemy,
        }
    }

    /// The layer's bit in a layer mask.
    pub fn to_bits(&self) -> (bits: u32)
        ensures
            bits == (1u32 << (self.bit_index() as u32)),
            bits == 1 || bits == 2 || bits == 4 || bits == 8,
    {
        assert((1u32 << 0u32) == 1 && (1u32 << 1u32) == 2 && (1u32 << 2u32) == 4 && (1u32 << 3u32)
            == 8) by (bit_vector);
        match self {
            GameLayer::Default => 1,
            GameLayer::Enemy => 2,
            GameLayer::Plant => 4,
            GameLayer::Fireball => 8,
        }
    }

    /// Whether a body filed under `self` reports overlaps with bodies of `other`.
    pub fn interacts_with(&self, other: &GameLayer) -> (hit: bool)
        ensures
            hit == self.collides_with(*other),
    {
        match self {
            GameLayer::Default => false,
            GameLayer::Plant => matches!(other, GameLayer::Plant | GameLayer::Enemy),
            GameLayer::Enemy => matches!(
                other,
                GameLayer::Plant | GameLayer::Enemy | GameLayer::Fireball
            ),
            GameLayer::Fireball => matches!(other, GameLayer::Enemy),
        }
    }
}

/// Two bodies began to overlap, as the physics of the caller reports it.
#[derive(Clone, Copy, Debug, PartialEq, Eq, Structural)]
pub struct CollisionStarted(pub crate::entity::EntityId, pub crate::entity::EntityId);

/// How a body moves between two ticks; carrying the motion out is left to
/// whoever integrates positions.
#[derive(Clone, Copy, Debug, PartialEq, Eq, Structural)]
pub enum Motion {
    /// At rest.
    Still,
    /// Straight towards `target`, at `speed` pixels per second.
    Toward { target: crate::geometry::GridPoint, speed: u32 },
    /// With the fixed velocity `(dx, dy)`, in pixels per second.
    Along { dx: i32, dy: i32 },
}

} // verus!
