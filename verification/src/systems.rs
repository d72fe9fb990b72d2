//! The frame passes that do not own state of their own: input steering,
//! position integration, lifetime housekeeping, and damage/death resolution.

use vstd::prelude::*;

use crate::animation::Animation;
use crate::assets::EXPLOSION_SPRITE_ID;
use crate::components::DamageEvent;
use crate::components::DeathEffect;
use crate::components::Health;
use crate::components::HealthV;
use crate::components::Lifetime;
use crate::components::Point;
use crate::components::Position;
use crate::components::Rect;
use crate::components::Sprite;
use crate::components::Velocity;
use crate::input::InputV;
use crate::input::KEY_DOWN;
use crate::input::KEY_FIRE;
use crate::input::KEY_LEFT;
use crate::input::KEY_RIGHT;
use crate::input::KEY_UP;
use crate::input::key_at;
use crate::resources::DeltaTime;
use crate::resources::InputResource;
use crate::vec2::Vec2;
use crate::vec2::vec2_plus;
use crate::vec2::vec2_scaled;
use crate::vec2::vec2_near;
use crate::weapon::Weapon;
use crate::weapon::WeaponFireCommand;
use crate::world::Bundle;
use crate::world::BundleV;
use crate::world::Entity;
use crate::world::SlotV;
use crate::world::World;
use crate::world::WorldV;
use crate::world::bundle_v_empty;

verus! {

/// How fast the input snapshot steers a controlled entity, in milliunits
/// per millisecond.
pub const PLAYER_STEER_SPEED: i32 = 400;

/// A timer decremented by the elapsed time, stopping at zero.
pub open spec fn cooled(c: i32, dt: i32) -> i32 {
    if dt >= c {
        0i32
    } else {
        (c - dt) as i32
    }
}

/// Decrements a timer by the elapsed time, stopping at zero.
pub fn cool_timer(c: i32, dt: i32) -> (r: i32)
    requires
        dt >= 0,
    ensures
        r == cooled(c, dt),
{
    if dt >= c {
        0
    } else {
        c - dt
    }
}

/// One integration step of a slot: a live entity with both a position and
/// a velocity moves by velocity times elapsed time (saturating at the
/// coordinate bounds); every other slot is untouched.
pub open spec fn integrate_slot(s: SlotV, dt: i32) -> SlotV {
    match (s.comps.position, s.comps.velocity) {
        (Some(p), Some(v)) => if s.alive {
            SlotV {
                comps: BundleV {
                    position: Some(
                        Position { position: vec2_plus(p.position, vec2_scaled(v.velocity, dt)) },
                    ),
                    ..s.comps
                },
                ..s
            }
        } else {
            s
        },
        _ => s,
    }
}

/// The whole integration pass: every slot stepped, the queues untouched.
pub open spec fn position_pass(w: WorldV, dt: i32) -> WorldV {
    WorldV { slots: Seq::new(w.slots.len(), |i: int| integrate_slot(w.slots[i], dt)), ..w }
}

/// The position-integration pass.
pub struct PositionUpdateSystem;

impl PositionUpdateSystem {
    pub fn run(&mut self, world: &mut World, delta_time: &DeltaTime)
        requires
            delta_time.0 >= 0,
        ensures
            final(world)@ == position_pass(old(world)@, delta_time.0),
    {
        let dt = delta_time.0;
        let ghost w0 = world@;
        let mut i: usize = 0;
        while i < world.slots.len()
            invariant
                i <= world.slots@.len(),
                world.slots@.len() == w0.slots.len(),
                forall|j: int| 0 <= j < i ==> world@.slots[j] == integrate_slot(w0.slots[j], dt),
                forall|j: int| i <= j < world.slots@.len() ==> world@.slots[j] == w0.slots[j],
                world@.pending_spawns == w0.pending_spawns,
                world@.pending_deletes == w0.pending_deletes,
            decreases world.slots@.len() - i,
        {
            let ghost pre = world@;
            let slot = &mut world.slots[i];
            if slot.alive {
                match (&slot.comps.position, &slot.comps.velocity) {
                    (Some(p), Some(v)) => {
                        let np = p.position.plus(v.velocity.scaled(dt));
                        slot.comps.position = Some(Position { position: np });
                    },
                    _ => {},
                }
            }
            proof {
                assert(world@.slots[i as int] =~~= integrate_slot(w0.slots[i as int], dt));
                assert forall|j: int| 0 <= j < i + 1 implies world@.slots[j] == integrate_slot(
                    w0.slots[j],
                    dt,
                ) by {
                    if j != i {
                        assert(world@.slots[j] == pre.slots[j]);
                        assert(pre.slots[j] == integrate_slot(w0.slots[j], dt));
                    }
                }
            }
            i = i + 1;
        }
        proof {
            assert(world@ =~~= position_pass(w0, dt));
        }
    }
}

/// The velocity the input snapshot asks for: when both keys of an axis are
/// held, down beats up and right beats left, mirroring the order the key
/// table is consulted in.
pub open spec fn steer_velocity(iv: InputV) -> Vec2 {
    Vec2 {
        x: if key_at(iv, KEY_RIGHT).held {
            PLAYER_STEER_SPEED
        } else if key_at(iv, KEY_LEFT).held {
            (-PLAYER_STEER_SPEED) as i32
        } else {
            0i32
        },
        y: if key_at(iv, KEY_DOWN).held {
            PLAYER_STEER_SPEED
        } else if key_at(iv, KEY_UP).held {
            (-PLAYER_STEER_SPEED) as i32
        } else {
            0i32
        },
    }
}

/// The fire command the input snapshot asks for: the held fire key is
/// re-issued every frame, so holding it fires repeatedly, gated only by
/// the weapon's cooldown.
pub open spec fn steer_command(iv: InputV) -> WeaponFireCommand {
    if key_at(iv, KEY_FIRE).held {
        WeaponFireCommand::FireOnce
    } else {
        WeaponFireCommand::Waiting
    }
}

/// One input step of a slot: a live, keyboard-controlled entity has its
/// velocity and its weapon command overwritten from the snapshot; every
/// other slot, and every component the entity lacks, is untouched.
pub open spec fn input_slot(s: SlotV, iv: InputV) -> SlotV {
    if s.alive && s.comps.keyboard is Some {
        let c1 = match s.comps.velocity {
            Some(_) => BundleV {
                velocity: Some(Velocity { velocity: steer_velocity(iv) }),
                ..s.comps
            },
            None => s.comps,
        };
        let c2 = match c1.weapon {
            Some(w) => BundleV { weapon: Some(Weapon { command: steer_command(iv), ..w }), ..c1 },
            None => c1,
        };
        SlotV { comps: c2, ..s }
    } else {
        s
    }
}

/// The whole input pass: every slot stepped, the queues untouched.
pub open spec fn input_pass(w: WorldV, iv: InputV) -> WorldV {
    WorldV { slots: Seq::new(w.slots.len(), |i: int| input_slot(w.slots[i], iv)), ..w }
}

/// The input pass: feeds the input snapshot into the keyboard-controlled
/// entities.
pub struct InputSystem;

impl InputSystem {
    pub fn run(&mut self, world: &mut World, input: &InputResource)
        ensures
            final(world)@ == input_pass(old(world)@, input.0@),
    {
        let steer_x = if input.0.get_key(KEY_RIGHT).held {
            PLAYER_STEER_SPEED
        } else if input.0.get_key(KEY_LEFT).held {
            -PLAYER_STEER_SPEED
        } else {
            0
        };
        let steer_y = if input.0.get_key(KEY_DOWN).held {
            PLAYER_STEER_SPEED
        } else if input.0.get_key(KEY_UP).held {
            -PLAYER_STEER_SPEED
        } else {
            0
        };
        let fire = input.0.get_key(KEY_FIRE).held;
        let ghost w0 = world@;
        let mut i: usize = 0;
        while i < world.slots.len()
            invariant
                i <= world.slots@.len(),
                world.slots@.len() == w0.slots.len(),
                steer_x == steer_velocity(input.0@).x,
                steer_y == steer_velocity(input.0@).y,
                fire == key_at(input.0@, KEY_FIRE).held,
                forall|j: int| 0 <= j < i ==> world@.slots[j] == input_slot(w0.slots[j], input.0@),
                forall|j: int| i <= j < world.slots@.len() ==> world@.slots[j] == w0.slots[j],
                world@.pending_spawns == w0.pending_spawns,
                world@.pending_deletes == w0.pending_deletes,
            decreases world.slots@.len() - i,
        {
            let ghost pre = world@;
            let slot = &mut world.slots[i];
            if slot.alive && slot.comps.keyboard.is_some() {
                match &slot.comps.velocity {
                    Some(_) => {
                        slot.comps.velocity = Some(
                            Velocity { velocity: Vec2 { x: steer_x, y: steer_y } },
                        );
                    },
                    None => {},
                }
                match &slot.comps.weapon {
                    Some(w) => {
                        let command = if fire {
                            WeaponFireCommand::FireOnce
                        } else {
                            WeaponFireCommand::Waiting
                        };
                        slot.comps.weapon = Some(Weapon { command, ..*w });
                    },
                    None => {},
                }
            }
            proof {
                assert(world@.slots[i as int] =~~= input_slot(w0.slots[i as int], input.0@));
                assert forall|j: int| 0 <= j < i + 1 implies world@.slots[j] == input_slot(
                    w0.slots[j],
                    input.0@,
                ) by {
                    if j != i {
                        assert(world@.slots[j] == pre.slots[j]);
                        assert(pre.slots[j] == input_slot(w0.slots[j], input.0@));
                    }
                }
            }
            i = i + 1;
        }
        proof {
            assert(world@ =~~= input_pass(w0, input.0@));
        }
    }
}

/// One housekeeping step of a slot: a live entity's remaining lifetime
/// shrinks by the elapsed time, stopping at zero; slots without a lifetime
/// are untouched.
pub open spec fn lifetime_slot(s: SlotV, dt: i32) -> SlotV {
    match s.comps.lifetime {
        Some(lt) => if s.alive {
            SlotV {
                comps: BundleV {
                    lifetime: Some(Lifetime { time_left: cooled(lt.time_left, dt) }),
                    ..s.comps
                },
                ..s
            }
        } else {
            s
        },
        None => s,
    }
}

/// Whether the elapsed time outlives what the slot's entity has left.
pub open spec fn lifetime_expires(s: SlotV, dt: i32) -> bool {
    s.alive && match s.comps.lifetime {
        Some(lt) => dt > lt.time_left,
        None => false,
    }
}

/// The deletions the housekeeping pass queues, in slot order.
pub open spec fn lifetime_deletes(slots: Seq<SlotV>, dt: i32) -> Seq<Entity>
    decreases slots.len(),
{
    if slots.len() == 0 {
        Seq::empty()
    } else {
        lifetime_deletes(slots.drop_last(), dt) + if lifetime_expires(slots.last(), dt) {
            seq![
                Entity {
                    id: (slots.len() - 1) as usize,
                    generation: slots.last().generation,
                },
            ]
        } else {
            Seq::empty()
        }
    }
}

/// The whole housekeeping pass: every lifetime decremented, each expired
/// entity queued for deferred deletion, and nothing else.
pub open spec fn lifetime_pass(w: WorldV, dt: i32) -> WorldV {
    WorldV {
        slots: Seq::new(w.slots.len(), |i: int| lifetime_slot(w.slots[i], dt)),
        pending_deletes: w.pending_deletes + lifetime_deletes(w.slots, dt),
        ..w
    }
}

/// The lifetime/despawn housekeeping pass.
pub struct LifetimeKiller;

impl LifetimeKiller {
    pub fn run(&mut self, world: &mut World, delta_time: &DeltaTime)
        requires
            delta_time.0 >= 0,
        ensures
            final(world)@ == lifetime_pass(old(world)@, delta_time.0),
    {
        let dt = delta_time.0;
        let ghost w0 = world@;
        let mut i: usize = 0;
        while i < world.slots.len()
            invariant
                i <= world.slots@.len(),
                world.slots@.len() == w0.slots.len(),
                dt >= 0,
                forall|j: int| 0 <= j < i ==> world@.slots[j] == lifetime_slot(w0.slots[j], dt),
                forall|j: int| i <= j < world.slots@.len() ==> world@.slots[j] == w0.slots[j],
                world@.pending_spawns == w0.pending_spawns,
                world@.pending_deletes == w0.pending_deletes + lifetime_deletes(
                    w0.slots.subrange(0, i as int),
                    dt,
                ),
            decreases world.slots@.len() - i,
        {
            let ghost pre = world@;
            let alive = world.slots[i].alive;
            let mut expired = false;
            let mut generation: u32 = 0;
            {
                let slot = &mut world.slots[i];
                generation = slot.generation;
                if slot.alive {
                    match &slot.comps.lifetime {
                        Some(lt) => {
                            if dt > lt.time_left {
                                expired = true;
                            }
                            let left = cool_timer(lt.time_left, dt);
                            slot.comps.lifetime = Some(Lifetime { time_left: left });
                        },
                        None => {},
                    }
                }
            }
            if expired {
                world.pending_deletes.push(Entity { id: i, generation });
            }
            proof {
                assert(world@.slots[i as int] =~~= lifetime_slot(w0.slots[i as int], dt));
                assert forall|j: int| 0 <= j < i + 1 implies world@.slots[j] == lifetime_slot(
                    w0.slots[j],
                    dt,
                ) by {
                    if j != i {
                        assert(world@.slots[j] == pre.slots[j]);
                        assert(pre.slots[j] == lifetime_slot(w0.slots[j], dt));
                    }
                }
                assert(w0.slots.subrange(0, i as int + 1).drop_last() =~= w0.slots.subrange(
                    0,
                    i as int,
                ));
                assert(w0.slots.subrange(0, i as int + 1).last() == w0.slots[i as int]);
                assert(world@.pending_deletes =~= w0.pending_deletes + lifetime_deletes(
                    w0.slots.subrange(0, i as int + 1),
                    dt,
                ));
            }
            i = i + 1;
        }
        proof {
            assert(w0.slots.subrange(0, w0.slots.len() as int) =~= w0.slots);
            assert(world@ =~~= lifetime_pass(w0, dt));
        }
    }
}

/// How far an explosion effect scatters from the impact, in milliunits.
pub const SCATTER_SPREAD: i32 = 10_000;

/// How long an explosion effect lives, in milliseconds.
pub const EXPLOSION_LIFETIME_MS: i32 = 500;

/// The frame rate of the explosion animation.
pub const EXPLOSION_FPS: u32 = 30;

/// The grid shape of the explosion spritesheet.
pub const EXPLOSION_SHEET_DIM: u32 = 4;

/// What draining a damage-event queue leaves behind: the remaining hit
/// points and, when the owner died, the impact position of the lethal event.
pub ghost struct DrainOutcome {
    pub health: u32,
    pub death: Option<Vec2>,
}

/// Drains queued damage events in submission order. Each event lowers the
/// hit points; the first event whose amount meets or exceeds what is left
/// pins them at exactly zero and records its impact position, and every
/// later event is discarded, so an entity dies at most once per frame.
pub open spec fn drain_events(health: u32, events: Seq<DamageEvent>) -> DrainOutcome
    decreases events.len(),
{
    if events.len() == 0 {
        DrainOutcome { health, death: None }
    } else {
        match events.first() {
            DamageEvent::DamageTaken(amount, pos) => if amount >= health {
                DrainOutcome { health: 0u32, death: Some(pos) }
            } else {
                drain_events((health - amount) as u32, events.drop_first())
            },
        }
    }
}

/// One resolution step of a slot: a live entity's damage queue is drained
/// and cleared, and its hit points take the drained value.
pub open spec fn health_slot(s: SlotV) -> SlotV {
    match s.comps.health {
        Some(h) => if s.alive {
            SlotV {
                comps: BundleV {
                    health: Some(
                        HealthV {
                            health: drain_events(h.health, h.damage_events).health,
                            damage_events: Seq::empty(),
                            ..h
                        },
                    ),
                    ..s.comps
                },
                ..s
            }
        } else {
            s
        },
        None => s,
    }
}

/// Whether the slot's entity dies this frame.
pub open spec fn health_dies(s: SlotV) -> bool {
    s.alive && match s.comps.health {
        Some(h) => drain_events(h.health, h.damage_events).death is Some,
        None => false,
    }
}

/// The impact position of the lethal event of a dying slot.
pub open spec fn death_impact(s: SlotV) -> Vec2 {
    match s.comps.health {
        Some(h) => drain_events(h.health, h.damage_events).death->0,
        None => Vec2 { x: 0, y: 0 },
    }
}

/// Whether the slot's entity dies this frame with an explosion reaction.
pub open spec fn death_explodes(s: SlotV) -> bool {
    health_dies(s) && match s.comps.health {
        Some(h) => h.on_death is SpawnExplosion,
        None => false,
    }
}

/// The effect entity an explosion reaction spawns: a short-lived animated
/// sprite at the given position.
pub open spec fn explosion_bundle(size: i32, p: Vec2) -> BundleV {
    BundleV {
        position: Some(Position { position: p }),
        sprite: Some(
            Sprite {
                spritesheet: EXPLOSION_SPRITE_ID,
                size: Point { x: size, y: size },
                src_rect: Rect { x: 0, y: 0, w: 64, h: 64 },
            },
        ),
        animation: Some(
            Animation {
                time_per_frame: (1000int / EXPLOSION_FPS as int) as i32,
                sheet_columns: EXPLOSION_SHEET_DIM,
                sheet_rows: EXPLOSION_SHEET_DIM,
                internal_counter: 0i32,
                internal_index: 0u64,
            },
        ),
        lifetime: Some(Lifetime { time_left: EXPLOSION_LIFETIME_MS }),
        ..bundle_v_empty()
    }
}

/// Builds the explosion effect entity.
pub fn make_explosion(size: i32, p: Vec2) -> (b: Bundle)
    ensures
        b@ == explosion_bundle(size, p),
{
    let mut b = Bundle::empty();
    b.position = Some(Position { position: p });
    b.sprite = Some(
        Sprite {
            spritesheet: EXPLOSION_SPRITE_ID,
            size: Point { x: size, y: size },
            src_rect: Rect { x: 0, y: 0, w: 64, h: 64 },
        },
    );
    b.animation = Some(Animation::new(EXPLOSION_FPS, EXPLOSION_SHEET_DIM, EXPLOSION_SHEET_DIM));
    b.lifetime = Some(Lifetime { time_left: EXPLOSION_LIFETIME_MS });
    proof {
        assert(b@ =~~= explosion_bundle(size, p));
    }
    b
}

/// What one dying slot spawns: its explosion effect at the chosen scatter
/// position, or nothing.
pub open spec fn death_spawns_of(s: SlotV, p: Vec2) -> Seq<BundleV> {
    if health_dies(s) {
        match s.comps.health {
            Some(h) => match h.on_death {
                DeathEffect::SpawnExplosion { size } => seq![explosion_bundle(size, p)],
                DeathEffect::NoEffect => Seq::empty(),
            },
            None => Seq::empty(),
        }
    } else {
        Seq::empty()
    }
}

/// The creations the resolution pass queues, in slot order, one per dying
/// entity whose reaction spawns an effect. `ps` holds the chosen scatter
/// position for each slot.
pub open spec fn health_spawns(slots: Seq<SlotV>, ps: Seq<Vec2>) -> Seq<BundleV>
    decreases slots.len(),
{
    if slots.len() == 0 {
        Seq::empty()
    } else {
        health_spawns(slots.drop_last(), ps.drop_last()) + death_spawns_of(
            slots.last(),
            ps.last(),
        )
    }
}

/// The deletions the resolution pass queues, in slot order, one per dying
/// entity.
pub open spec fn health_deletes(slots: Seq<SlotV>) -> Seq<Entity>
    decreases slots.len(),
{
    if slots.len() == 0 {
        Seq::empty()
    } else {
        health_deletes(slots.drop_last()) + if health_dies(slots.last()) {
            seq![
                Entity {
                    id: (slots.len() - 1) as usize,
                    generation: slots.last().generation,
                },
            ]
        } else {
            Seq::empty()
        }
    }
}

/// Whether the chosen scatter positions are admissible: one per slot, each
/// within the scatter spread of the dying entity's impact position.
pub open spec fn scatter_ok(slots: Seq<SlotV>, ps: Seq<Vec2>) -> bool {
    ps.len() == slots.len() && forall|i: int|
        0 <= i < slots.len() && #[trigger] death_explodes(slots[i]) ==> vec2_near(
            ps[i],
            death_impact(slots[i]),
            SCATTER_SPREAD,
        )
}

/// The whole resolution pass for one admissible choice of scatter
/// positions: every health slot drained, each dying entity's effect spawn
/// and deletion queued, in slot order.
pub open spec fn health_pass(w: WorldV, ps: Seq<Vec2>) -> WorldV {
    WorldV {
        slots: Seq::new(w.slots.len(), |i: int| health_slot(w.slots[i])),
        pending_spawns: w.pending_spawns + health_spawns(w.slots, ps),
        pending_deletes: w.pending_deletes + health_deletes(w.slots),
    }
}

/// Drains a damage-event queue against the given hit points.
pub fn drain_damage(health: u32, events: &Vec<DamageEvent>) -> (r: (u32, Option<Vec2>))
    ensures
        r.0 == drain_events(health, events@).health,
        r.1 == drain_events(health, events@).death,
{
    let mut hp = health;
    let mut j: usize = 0;
    proof {
        assert(events@.skip(0) =~= events@);
    }
    while j < events.len()
        invariant
            j <= events@.len(),
            drain_events(health, events@) == drain_events(hp, events@.skip(j as int)),
        decreases events@.len() - j,
    {
        match events[j] {
            DamageEvent::DamageTaken(amount, pos) => {
                proof {
                    assert(events@.skip(j as int).first() == events@[j as int]);
                }
                if amount >= hp {
                    return (0, Some(pos));
                }
                hp = hp - amount;
            },
        }
        proof {
            assert(events@.skip(j as int).drop_first() =~= events@.skip(j as int + 1));
        }
        j = j + 1;
    }
    (hp, None)
}

/// The damage/death resolution pass.
pub struct HealthSystem;

impl HealthSystem {
    pub fn run(&mut self, world: &mut World)
        ensures
            exists|ps: Seq<Vec2>|
                scatter_ok(old(world)@.slots, ps) && final(world)@ == #[trigger] health_pass(
                    old(world)@,
                    ps,
                ),
    {
        let ghost w0 = world@;
        let ghost mut ps: Seq<Vec2> = Seq::empty();
        let mut i: usize = 0;
        while i < world.slots.len()
            invariant
                i <= world.slots@.len(),
                world.slots@.len() == w0.slots.len(),
                ps.len() == i,
                forall|j: int| 0 <= j < i ==> world@.slots[j] == health_slot(w0.slots[j]),
                forall|j: int| i <= j < world.slots@.len() ==> world@.slots[j] == w0.slots[j],
                forall|j: int|
                    0 <= j < i && #[trigger] death_explodes(w0.slots[j]) ==> vec2_near(
                        ps[j],
                        death_impact(w0.slots[j]),
                        SCATTER_SPREAD,
                    ),
                world@.pending_spawns == w0.pending_spawns + health_spawns(
                    w0.slots.subrange(0, i as int),
                    ps,
                ),
                world@.pending_deletes == w0.pending_deletes + health_deletes(
                    w0.slots.subrange(0, i as int),
                ),
            decreases world.slots@.len() - i,
        {
            let ghost pre = world@;
            let ghost ps0 = ps;
            let alive = world.slots[i].alive;
            let generation = world.slots[i].generation;
            let mut new_health: Option<Health> = None;
            let mut dead_pos: Option<Vec2> = None;
            let mut effect = DeathEffect::NoEffect;
            let mut processed = false;
            match &world.slots[i].comps.health {
                Some(h) => {
                    if alive {
                        let (hp, death) = drain_damage(h.health, &h.damage_events);
                        new_health = Some(
                            Health {
                                health: hp,
                                max_health: h.max_health,
                                damage_events: Vec::new(),
                                on_death: h.on_death,
                            },
                        );
                        dead_pos = death;
                        effect = h.on_death;
                        processed = true;
                    }
                },
                None => {},
            }
            if processed {
                let slot = &mut world.slots[i];
                slot.comps.health = new_health;
            }
            proof {
                assert(world@.slots[i as int] =~~= health_slot(w0.slots[i as int]));
                assert forall|j: int| 0 <= j < i + 1 implies world@.slots[j] == health_slot(
                    w0.slots[j],
                ) by {
                    if j != i {
                        assert(world@.slots[j] == pre.slots[j]);
                        assert(pre.slots[j] == health_slot(w0.slots[j]));
                    }
                }
            }
            match dead_pos {
                Some(pos) => {
                    match effect {
                        DeathEffect::SpawnExplosion { size } => {
                            let p = Vec2::randomize(pos, SCATTER_SPREAD);
                            let b = make_explosion(size, p);
                            world.pending_spawns.push(b);
                            proof {
                                ps = ps.push(p);
                            }
                        },
                        DeathEffect::NoEffect => {
                            proof {
                                ps = ps.push(Vec2 { x: 0, y: 0 });
                            }
                        },
                    }
                    world.pending_deletes.push(Entity { id: i, generation });
                },
                None => {
                    proof {
                        ps = ps.push(Vec2 { x: 0, y: 0 });
                    }
                },
            }
            proof {
                assert(w0.slots.subrange(0, i as int + 1).drop_last() =~= w0.slots.subrange(
                    0,
                    i as int,
                ));
                assert(ps.drop_last() =~= ps0);
                assert(w0.slots.subrange(0, i as int + 1).last() == w0.slots[i as int]);
                let ghost snew = w0.slots.subrange(0, i as int + 1);
                assert(snew.len() == i + 1);
                assert(health_spawns(snew, ps) == health_spawns(snew.drop_last(), ps.drop_last())
                    + death_spawns_of(snew.last(), ps.last()));
                assert(health_spawns(snew.drop_last(), ps.drop_last()) == health_spawns(
                    w0.slots.subrange(0, i as int),
                    ps0,
                ));
                assert(world@.pending_spawns =~= pre.pending_spawns + death_spawns_of(
                    w0.slots[i as int],
                    ps.last(),
                ));
                assert(world@.pending_spawns =~= w0.pending_spawns + health_spawns(
                    w0.slots.subrange(0, i as int + 1),
                    ps,
                ));
                assert(world@.pending_deletes =~= w0.pending_deletes + health_deletes(
                    w0.slots.subrange(0, i as int + 1),
                ));
            }
            i = i + 1;
        }
        proof {
            assert(w0.slots.subrange(0, w0.slots.len() as int) =~= w0.slots);
            assert(scatter_ok(w0.slots, ps));
            assert(world@ =~~= health_pass(w0, ps));
        }
    }
}

} // verus!
