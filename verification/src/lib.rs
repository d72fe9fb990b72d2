//! Simulation core of a small 2D arcade shooter.
//!
//! The library owns the gameplay entities (player, enemies, projectiles,
//! ephemeral effects) and advances them one frame at a time: movement,
//! collision detection, damage and death resolution, weapon fire control,
//! enemy patrol behaviour, and lifetime housekeeping. All entity creation
//! and deletion requested during a frame is deferred and committed in a
//! single maintenance step at frame end.
//!
//! Units: distances are in milliunits (one thousandth of a world unit),
//! times in milliseconds, and velocities in milliunits per millisecond,
//! so a velocity number reads as world units per second.

pub mod animation;
pub mod assets;
pub mod collision;
pub mod components;
pub mod enemy;
pub mod engine;
pub mod input;
pub mod laws;
pub mod player;
pub mod renderer;
pub mod resources;
pub mod rng;
pub mod systems;
pub mod vec2;
pub mod weapon;
pub mod world;

pub use vec2::Vec2;
