//! Spritesheet identifiers and tuning constants the simulation stamps onto
//! the entities it spawns. The renderer maps each identifier to a texture.

use vstd::prelude::*;

verus! {

pub const PLAYER_SPRITE_ID: usize = 0;

pub const BOSS_SPRITE_ID: usize = 1;

pub const BULLET_SPRITE_ID: usize = 2;

pub const EXPLOSION_SPRITE_ID: usize = 3;

/// On-screen size of a projectile, in pixels.
pub const BULLET_SIZE: i32 = 16;

} // verus!
