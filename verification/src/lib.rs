//! Rules of a farm defence game: plants, rats, seeds in flight, fireballs and
//! the farm's bank account, advanced tick by tick over explicit collections.
//!
//! Positions are whole pixels, time is counted in microseconds and money in
//! whole coins, so every rule is exact integer arithmetic. The caller moves
//! the bodies, reports their overlaps and plays the sounds; the rules decide
//! everything else.

pub mod burn;
pub mod coin;
pub mod daisy_chain;
pub mod enemy;
pub mod entity;
pub mod farm;
pub mod geometry;
pub mod health;
pub mod ids;
pub mod lifespan;
pub mod particle;
pub mod physics;
pub mod plant;
pub mod player;
pub mod player_animation;
pub mod random;
pub mod seed;
pub mod sequence;
pub mod smoke;
pub mod sound;
pub mod tick;
pub mod timer;
pub mod validity;
pub mod world;
