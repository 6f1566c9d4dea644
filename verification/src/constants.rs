//! The fixed parameters of the game and the units in which it measures.
//!
//! Lengths are whole numbers of micro-pixels and times are whole numbers of
//! microseconds. A speed is given in pixels per second, which is the same
//! number of micro-pixels per microsecond, so that a body moving along an
//! axis for `dt` microseconds at speed `s` covers exactly `s * dt`
//! micro-pixels.

use vstd::prelude::*;

verus! {

/// Micro-pixels in one pixel.
pub const UNITS_PER_PIXEL: i64 = 1_000_000;

/// The length of a direction vector, in the fixed-point scale of its components.
pub const UNIT: i32 = 1_000_000;

/// Speed of the player, in pixels per second.
pub const PLAYER_SPEED: u32 = 500;

/// Diameter of the player, in micro-pixels.
pub const PLAYER_SIZE: u32 = 64_000_000;

/// Number of enemies created at startup.
pub const NUMBER_OF_ENEMIES: usize = 4;

/// Speed of every enemy, in pixels per second.
pub const ENEMY_SPEED: u32 = 200;

/// Diameter of an enemy, in micro-pixels.
pub const ENEMY_SIZE: u32 = 64_000_000;

/// Number of stars created at startup.
pub const NUMBER_OF_STARS: usize = 10;

/// Diameter of a star, in micro-pixels.
pub const STAR_SIZE: u32 = 30_000_000;

} // verus!
