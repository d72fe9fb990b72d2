//! The player marker and the respawn pass: whenever no live player entity
//! exists, a fresh one is queued for deferred creation.

use vstd::prelude::*;

use crate::assets::PLAYER_SPRITE_ID;
use crate::collision::CircleCollider;
use crate::collision::LayerMask;
use crate::collision::Layers;
use crate::components::Damage;
use crate::components::DeathEffect;
use crate::components::Health;
use crate::components::HealthV;
use crate::components::KeyboardControlled;
use crate::components::Point;
use crate::components::Position;
use crate::components::Rect;
use crate::components::Sprite;
use crate::components::Velocity;
use crate::vec2::Vec2;
use crate::weapon::Weapon;
use crate::weapon::WeaponFireCommand;
use crate::world::Bundle;
use crate::world::BundleV;
use crate::world::SlotV;
use crate::world::World;
use crate::world::WorldV;
use crate::world::bundle_v_empty;

verus! {

/// Marker for the player entity.
#[derive(Debug, Copy, Clone, PartialEq, Eq, Structural)]
pub struct Player {}

impl Player {
    pub fn new() -> (r: Player)
        ensures
            r == (Player {}),
    {
        Player {}
    }
}

/// Where a fresh player appears, in milliunits.
pub const PLAYER_SPAWN_X: i32 = 800_000;

/// Where a fresh player appears, in milliunits.
pub const PLAYER_SPAWN_Y: i32 = 800_000;

/// The player's collision radius, in milliunits.
pub const PLAYER_RADIUS: u32 = 22_000;

/// The player's starting hit points.
pub const PLAYER_HEALTH: u32 = 25;

/// The explosion size a dying player leaves, in pixels.
pub const PLAYER_EXPLOSION_SIZE: i32 = 128;

/// Whether any live entity carries the player marker.
pub open spec fn has_player(slots: Seq<SlotV>) -> bool {
    exists|i: int|
        0 <= i < slots.len() && (#[trigger] slots[i]).alive && slots[i].comps.player is Some
}

/// The fresh player: keyboard-steered, on the player collision layer and
/// reacting to enemies, with a fast upward-firing weapon.
pub open spec fn player_bundle() -> BundleV {
    BundleV {
        position: Some(Position { position: Vec2 { x: PLAYER_SPAWN_X, y: PLAYER_SPAWN_Y } }),
        sprite: Some(
            Sprite {
                spritesheet: PLAYER_SPRITE_ID,
                size: Point { x: 64, y: 64 },
                src_rect: Rect { x: 0, y: 0, w: 128, h: 128 },
            },
        ),
        velocity: Some(Velocity { velocity: Vec2 { x: 0, y: 0 } }),
        collider: Some(
            CircleCollider {
                radius: PLAYER_RADIUS,
                layer: LayerMask { bitmask: crate::collision::layer_bit(Layers::Player) },
                collides_with: LayerMask { bitmask: crate::collision::layer_bit(Layers::Enemy) },
            },
        ),
        health: Some(
            HealthV {
                health: PLAYER_HEALTH,
                max_health: PLAYER_HEALTH,
                damage_events: Seq::empty(),
                on_death: DeathEffect::SpawnExplosion { size: PLAYER_EXPLOSION_SIZE },
            },
        ),
        damage: Some(Damage { damage: 5 }),
        player: Some(Player {}),
        keyboard: Some(KeyboardControlled),
        weapon: Some(
            Weapon {
                speed: 1400,
                time_between_shots: 15,
                cooldown: 0,
                command: WeaponFireCommand::Waiting,
                damage: 25,
            },
        ),
        ..bundle_v_empty()
    }
}

/// Builds the fresh player.
pub fn make_player() -> (b: Bundle)
    ensures
        b@ == player_bundle(),
{
    let mut b = Bundle::empty();
    b.position = Some(Position::new(PLAYER_SPAWN_X, PLAYER_SPAWN_Y));
    b.sprite = Some(
        Sprite {
            spritesheet: PLAYER_SPRITE_ID,
            size: Point { x: 64, y: 64 },
            src_rect: Rect { x: 0, y: 0, w: 128, h: 128 },
        },
    );
    b.velocity = Some(Velocity::new(0, 0));
    b.collider = Some(
        CircleCollider {
            radius: PLAYER_RADIUS,
            layer: LayerMask::from_enum(Layers::Player),
            collides_with: LayerMask::from_enum(Layers::Enemy),
        },
    );
    b.health = Some(
        Health::new(PLAYER_HEALTH, DeathEffect::SpawnExplosion { size: PLAYER_EXPLOSION_SIZE }),
    );
    b.damage = Some(Damage::new(5));
    b.player = Some(Player::new());
    b.keyboard = Some(KeyboardControlled);
    b.weapon = Some(Weapon::new(1400, 15, 25));
    proof {
        assert(b@ =~~= player_bundle());
    }
    b
}

/// The whole respawn pass: when no live player exists, one fresh player
/// is queued for deferred creation; otherwise nothing changes.
pub open spec fn respawn_pass(w: WorldV) -> WorldV {
    if has_player(w.slots) {
        w
    } else {
        WorldV { pending_spawns: w.pending_spawns.push(player_bundle()), ..w }
    }
}

/// The player respawn pass.
pub struct PlayerRespawnSystem;

impl PlayerRespawnSystem {
    pub fn run(&mut self, world: &mut World)
        ensures
            final(world)@ == respawn_pass(old(world)@),
    {
        let ghost w0 = world@;
        let mut player_alive = false;
        let mut i: usize = 0;
        while i < world.slots.len()
            invariant
                i <= world.slots@.len(),
                world@ == w0,
                player_alive == exists|j: int|
                    0 <= j < i && (#[trigger] w0.slots[j]).alive && w0.slots[j].comps.player
                        is Some,
            decreases world.slots@.len() - i,
        {
            let hit = world.slots[i].alive && world.slots[i].comps.player.is_some();
            if hit {
                player_alive = true;
            }
            proof {
                if player_alive {
                    if hit {
                        assert((w0.slots[i as int]).alive && w0.slots[i as int].comps.player
                            is Some);
                    } else {
                        let j = choose|j: int|
                            0 <= j < i && (#[trigger] w0.slots[j]).alive
                                && w0.slots[j].comps.player is Some;
                        assert(0 <= j < i + 1 && (w0.slots[j]).alive && w0.slots[j].comps.player
                            is Some);
                    }
                    assert(exists|j: int|
                        0 <= j < i + 1 && (#[trigger] w0.slots[j]).alive
                            && w0.slots[j].comps.player is Some);
                }
            }
            i = i + 1;
        }
        proof {
            assert(player_alive == has_player(w0.slots));
        }
        if !player_alive {
            let b = make_player();
            world.pending_spawns.push(b);
            proof {
                assert(world@.pending_spawns =~= w0.pending_spawns.push(player_bundle()));
            }
        }
        proof {
            assert(world@ =~~= respawn_pass(w0));
        }
    }
}

} // verus!
