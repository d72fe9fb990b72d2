//! Weapon fire control: a weapon waits, fires once, or fires a counted
//! burst, gated by a cooldown that the weapon pass decrements each tick.
//! Each shot spawns a projectile entity through the deferred queue.

use vstd::prelude::*;

use crate::assets::BULLET_SIZE;
use crate::assets::BULLET_SPRITE_ID;
use crate::collision::CircleCollider;
use crate::components::Damage;
use crate::components::DeathEffect;
use crate::components::Health;
use crate::components::HealthV;
use crate::components::Lifetime;
use crate::components::Point;
use crate::components::Position;
use crate::components::Projectile;
use crate::components::Rect;
use crate::components::Sprite;
use crate::components::Velocity;
use crate::resources::DeltaTime;
use crate::vec2::Vec2;
use crate::vec2::clamp_to_i32;
use crate::vec2::sat32;
use crate::world::Bundle;
use crate::world::BundleV;
use crate::world::SlotV;
use crate::world::World;
use crate::world::WorldV;
use crate::world::bundle_v_empty;

verus! {

/// A projectile's collision radius, in milliunits.
pub const BULLET_RADIUS: u32 = 16_000;

/// How long a projectile lives, in milliseconds.
pub const BULLET_LIFETIME_MS: i32 = 1000;

/// The explosion size a dying projectile leaves, in pixels.
pub const BULLET_EXPLOSION_SIZE: i32 = 32;

/// What a weapon has been told to do.
#[derive(Debug, Copy, Clone, PartialEq, Eq, Structural)]
pub enum WeaponFireCommand {
    /// No pending fire.
    Waiting,
    /// Fire exactly one shot, then wait.
    FireOnce,
    /// Fire the counted number of shots, one per cooldown interval.
    FireAmount(u32),
}

/// Fire-control state plus the numbers stamped onto spawned projectiles:
/// `speed` is the projectile speed in milliunits per millisecond (positive
/// fires downward, negative upward), `time_between_shots` and `cooldown`
/// are in milliseconds, `damage` is copied to the projectile.
#[derive(Debug, Copy, Clone, PartialEq, Eq, Structural)]
pub struct Weapon {
    pub speed: i32,
    pub time_between_shots: i32,
    pub cooldown: i32,
    pub command: WeaponFireCommand,
    pub damage: u32,
}

impl Weapon {
    pub fn new(speed: i32, time_between_shots: i32, damage: u32) -> (r: Weapon)
        ensures
            r == (Weapon {
                speed,
                time_between_shots,
                cooldown: 0i32,
                command: WeaponFireCommand::Waiting,
                damage,
            }),
    {
        Weapon {
            speed,
            time_between_shots,
            cooldown: 0,
            command: WeaponFireCommand::Waiting,
            damage,
        }
    }
}

/// One fire-control transition: the cooldown shrinks by the elapsed time,
/// stopping at zero; at zero, a pending command fires one shot, rearms the
/// cooldown to the time between shots, and steps the command on
/// (`FireOnce` to waiting, a burst down by one until it runs out). A burst
/// of zero asks for no shot and simply returns to waiting.
pub open spec fn weapon_transition(w: Weapon, dt: i32) -> Weapon {
    let c = crate::systems::cooled(w.cooldown, dt);
    if c == 0 {
        match w.command {
            WeaponFireCommand::Waiting => Weapon { cooldown: c, ..w },
            WeaponFireCommand::FireOnce => Weapon {
                cooldown: w.time_between_shots,
                command: WeaponFireCommand::Waiting,
                ..w
            },
            WeaponFireCommand::FireAmount(n) => if n == 0 {
                Weapon { cooldown: c, command: WeaponFireCommand::Waiting, ..w }
            } else if n == 1 {
                Weapon {
                    cooldown: w.time_between_shots,
                    command: WeaponFireCommand::Waiting,
                    ..w
                }
            } else {
                Weapon {
                    cooldown: w.time_between_shots,
                    command: WeaponFireCommand::FireAmount((n - 1) as u32),
                    ..w
                }
            },
        }
    } else {
        Weapon { cooldown: c, ..w }
    }
}

/// Whether the transition fires a shot.
pub open spec fn weapon_shoots(w: Weapon, dt: i32) -> bool {
    crate::systems::cooled(w.cooldown, dt) == 0 && match w.command {
        WeaponFireCommand::Waiting => false,
        WeaponFireCommand::FireOnce => true,
        WeaponFireCommand::FireAmount(n) => n >= 1,
    }
}

/// Whether the slot's entity fires a shot this tick: it is live, carries a
/// position, a collider and a weapon, and the weapon's transition fires.
pub open spec fn weapon_fires(s: SlotV, dt: i32) -> bool {
    s.alive && match (s.comps.position, s.comps.collider, s.comps.weapon) {
        (Some(_), Some(_), Some(w)) => weapon_shoots(w, dt),
        _ => false,
    }
}

/// One weapon step of a slot: a live entity with a position, a collider
/// and a weapon has the weapon's transition applied; every other slot is
/// untouched.
pub open spec fn weapon_slot(s: SlotV, dt: i32) -> SlotV {
    match (s.comps.position, s.comps.collider, s.comps.weapon) {
        (Some(_), Some(_), Some(w)) => if s.alive {
            SlotV { comps: BundleV { weapon: Some(weapon_transition(w, dt)), ..s.comps }, ..s }
        } else {
            s
        },
        _ => s,
    }
}

/// The projectile a shot spawns: it starts at the shooter's position,
/// flies straight up at the weapon's speed (down for a negative speed),
/// carries the weapon's damage, inherits the shooter's collision masks,
/// and dies after a short lifetime or on one hit, leaving a small
/// explosion.
pub open spec fn bullet_bundle(p: Position, cl: CircleCollider, w: Weapon) -> BundleV {
    BundleV {
        projectile: Some(Projectile),
        position: Some(p),
        sprite: Some(
            Sprite {
                spritesheet: BULLET_SPRITE_ID,
                size: Point { x: BULLET_SIZE, y: BULLET_SIZE },
                src_rect: Rect { x: 0, y: 0, w: 16, h: 16 },
            },
        ),
        velocity: Some(Velocity { velocity: Vec2 { x: 0i32, y: sat32(-(w.speed as int)) as i32 } }),
        lifetime: Some(Lifetime { time_left: BULLET_LIFETIME_MS }),
        collider: Some(
            CircleCollider { radius: BULLET_RADIUS, layer: cl.layer, collides_with: cl.collides_with },
        ),
        health: Some(
            HealthV {
                health: 1u32,
                max_health: 1u32,
                damage_events: Seq::empty(),
                on_death: DeathEffect::SpawnExplosion { size: BULLET_EXPLOSION_SIZE },
            },
        ),
        damage: Some(Damage { damage: w.damage }),
        ..bundle_v_empty()
    }
}

/// The projectile a slot's shot spawns.
pub open spec fn bullet_of(s: SlotV) -> BundleV {
    match (s.comps.position, s.comps.collider, s.comps.weapon) {
        (Some(p), Some(cl), Some(w)) => bullet_bundle(p, cl, w),
        _ => bundle_v_empty(),
    }
}

/// The creations the weapon pass queues, in slot order, one per firing
/// entity.
pub open spec fn weapon_spawns(slots: Seq<SlotV>, dt: i32) -> Seq<BundleV>
    decreases slots.len(),
{
    if slots.len() == 0 {
        Seq::empty()
    } else {
        weapon_spawns(slots.drop_last(), dt) + if weapon_fires(slots.last(), dt) {
            seq![bullet_of(slots.last())]
        } else {
            Seq::empty()
        }
    }
}

/// The whole weapon pass: every weapon stepped and each shot's projectile
/// queued for deferred creation, in slot order.
pub open spec fn weapon_pass(w: WorldV, dt: i32) -> WorldV {
    WorldV {
        slots: Seq::new(w.slots.len(), |i: int| weapon_slot(w.slots[i], dt)),
        pending_spawns: w.pending_spawns + weapon_spawns(w.slots, dt),
        ..w
    }
}

/// Builds the projectile a shot spawns.
pub fn spawn_bullet(position: &Position, collider: &CircleCollider, weapon: &Weapon) -> (b: Bundle)
    ensures
        b@ == bullet_bundle(*position, *collider, *weapon),
{
    let mut b = Bundle::empty();
    b.projectile = Some(Projectile);
    b.position = Some(*position);
    b.sprite = Some(
        Sprite {
            spritesheet: BULLET_SPRITE_ID,
            size: Point { x: BULLET_SIZE, y: BULLET_SIZE },
            src_rect: Rect { x: 0, y: 0, w: 16, h: 16 },
        },
    );
    b.velocity = Some(Velocity { velocity: Vec2 { x: 0, y: clamp_to_i32(-(weapon.speed as i64)) } });
    b.lifetime = Some(Lifetime { time_left: BULLET_LIFETIME_MS });
    b.collider = Some(
        CircleCollider {
            radius: BULLET_RADIUS,
            layer: collider.layer,
            collides_with: collider.collides_with,
        },
    );
    b.health = Some(Health::new(1, DeathEffect::SpawnExplosion { size: BULLET_EXPLOSION_SIZE }));
    b.damage = Some(Damage { damage: weapon.damage });
    proof {
        assert(b@ =~~= bullet_bundle(*position, *collider, *weapon));
    }
    b
}

/// The weapon fire-control pass.
pub struct WeaponSystem;

impl WeaponSystem {
    pub fn run(&mut self, world: &mut World, delta_time: &DeltaTime)
        requires
            delta_time.0 >= 0,
        ensures
            final(world)@ == weapon_pass(old(world)@, delta_time.0),
    {
        let dt = delta_time.0;
        let ghost w0 = world@;
        let mut i: usize = 0;
        while i < world.slots.len()
            invariant
                i <= world.slots@.len(),
                world.slots@.len() == w0.slots.len(),
                dt >= 0,
                forall|j: int| 0 <= j < i ==> world@.slots[j] == weapon_slot(w0.slots[j], dt),
                forall|j: int| i <= j < world.slots@.len() ==> world@.slots[j] == w0.slots[j],
                world@.pending_spawns == w0.pending_spawns + weapon_spawns(
                    w0.slots.subrange(0, i as int),
                    dt,
                ),
                world@.pending_deletes == w0.pending_deletes,
            decreases world.slots@.len() - i,
        {
            let ghost pre = world@;
            let alive = world.slots[i].alive;
            let mut shot: Option<Bundle> = None;
            let mut new_weapon: Option<Weapon> = None;
            match (&world.slots[i].comps.position, &world.slots[i].comps.collider, &world.slots[i].comps.weapon) {
                (Some(p), Some(cl), Some(w)) => {
                    if alive {
                        let c = crate::systems::cool_timer(w.cooldown, dt);
                        let mut fired = false;
                        let mut next = *w;
                        if c == 0 {
                            match w.command {
                                WeaponFireCommand::Waiting => {
                                    next.cooldown = c;
                                },
                                WeaponFireCommand::FireOnce => {
                                    fired = true;
                                    next.cooldown = w.time_between_shots;
                                    next.command = WeaponFireCommand::Waiting;
                                },
                                WeaponFireCommand::FireAmount(n) => {
                                    if n == 0 {
                                        next.cooldown = c;
                                        next.command = WeaponFireCommand::Waiting;
                                    } else {
                                        fired = true;
                                        next.cooldown = w.time_between_shots;
                                        next.command = if n == 1 {
                                            WeaponFireCommand::Waiting
                                        } else {
                                            WeaponFireCommand::FireAmount(n - 1)
                                        };
                                    }
                                },
                            }
                        } else {
                            next.cooldown = c;
                        }
                        if fired {
                            shot = Some(spawn_bullet(p, cl, w));
                        }
                        new_weapon = Some(next);
                    }
                },
                _ => {},
            }
            proof {
                assert(shot is Some <==> weapon_fires(w0.slots[i as int], dt));
                if shot is Some {
                    assert(shot->0@ == bullet_of(w0.slots[i as int]));
                }
            }
            match new_weapon {
                Some(next) => {
                    let slot = &mut world.slots[i];
                    slot.comps.weapon = Some(next);
                },
                None => {},
            }
            match shot {
                Some(b) => {
                    world.pending_spawns.push(b);
                },
                None => {},
            }
            proof {
                assert(world@.slots[i as int] =~~= weapon_slot(w0.slots[i as int], dt));
                assert forall|j: int| 0 <= j < i + 1 implies world@.slots[j] == weapon_slot(
                    w0.slots[j],
                    dt,
                ) by {
                    if j != i {
                        assert(world@.slots[j] == pre.slots[j]);
                        assert(pre.slots[j] == weapon_slot(w0.slots[j], dt));
                    }
                }
                assert(w0.slots.subrange(0, i as int + 1).drop_last() =~= w0.slots.subrange(
                    0,
                    i as int,
                ));
                assert(w0.slots.subrange(0, i as int + 1).last() == w0.slots[i as int]);
                let ghost snew = w0.slots.subrange(0, i as int + 1);
                assert(weapon_spawns(snew, dt) == weapon_spawns(snew.drop_last(), dt)
                    + if weapon_fires(snew.last(), dt) {
                    seq![bullet_of(snew.last())]
                } else {
                    Seq::empty()
                });
                assert(world@.pending_spawns =~= pre.pending_spawns + (if weapon_fires(
                    w0.slots[i as int],
                    dt,
                ) {
                    seq![bullet_of(w0.slots[i as int])]
                } else {
                    Seq::<BundleV>::empty()
                }));
                assert(world@.pending_spawns =~= w0.pending_spawns + weapon_spawns(
                    w0.slots.subrange(0, i as int + 1),
                    dt,
                ));
            }
            i = i + 1;
        }
        proof {
            assert(w0.slots.subrange(0, w0.slots.len() as int) =~= w0.slots);
            assert(world@ =~~= weapon_pass(w0, dt));
        }
    }
}

} // verus!
