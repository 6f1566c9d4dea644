//! The simulation core of a small arcade game: a player steers through a
//! window, keeps away from roaming enemies and collects stars.
//!
//! The crate holds the rules of the game and nothing of the engine around
//! them. All quantities are integers; see [`constants`] for the units.

pub mod boundary;
pub mod collision;
pub mod constants;
pub mod direction;
pub mod entity;
pub mod frame;
pub mod identity;
pub mod math;
pub mod movement;
pub mod position;
pub mod registry;
pub mod spawner;
pub mod window;
