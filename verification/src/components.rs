//! The component kinds attached to entities. Every component is plain data;
//! the death reaction is a tagged variant resolved by the damage/death pass.

use vstd::prelude::*;

use crate::vec2::Vec2;

verus! {

/// Where an entity stands, in milliunits.
#[derive(Debug, Copy, Clone, PartialEq, Eq, Structural)]
pub struct Position {
    pub position: Vec2,
}

impl Position {
    pub fn new(x: i32, y: i32) -> (r: Self)
        ensures
            r.position == (Vec2 { x, y }),
    {
        Self { position: Vec2 { x, y } }
    }

    pub fn x(&self) -> (r: i32)
        ensures
            r == self.position.x,
    {
        self.position.x
    }

    pub fn y(&self) -> (r: i32)
        ensures
            r == self.position.y,
    {
        self.position.y
    }
}

/// How fast an entity moves, in milliunits per millisecond.
#[derive(Debug, Copy, Clone, PartialEq, Eq, Structural)]
pub struct Velocity {
    pub velocity: Vec2,
}

impl Velocity {
    pub fn new(x: i32, y: i32) -> (r: Self)
        ensures
            r.velocity == (Vec2 { x, y }),
    {
        Velocity { velocity: Vec2 { x, y } }
    }

    pub fn x(&self) -> (r: i32)
        ensures
            r == self.velocity.x,
    {
        self.velocity.x
    }

    pub fn y(&self) -> (r: i32)
        ensures
            r == self.velocity.y,
    {
        self.velocity.y
    }

    pub fn set_x(&mut self, value: i32)
        ensures
            final(self).velocity == (Vec2 { x: value, y: old(self).velocity.y }),
    {
        self.velocity.x = value;
    }

    pub fn set_y(&mut self, value: i32)
        ensures
            final(self).velocity == (Vec2 { x: old(self).velocity.x, y: value }),
    {
        self.velocity.y = value;
    }
}

/// Marker for projectile entities.
#[derive(Debug, Copy, Clone, PartialEq, Eq, Structural)]
pub struct Projectile;

/// Marker for entities steered by the input snapshot.
#[derive(Debug, Copy, Clone, PartialEq, Eq, Structural)]
pub struct KeyboardControlled;

/// Remaining time to live, in milliseconds. The housekeeping pass queues
/// the owner for deletion once the elapsed time exceeds what is left.
#[derive(Debug, Copy, Clone, PartialEq, Eq, Structural)]
pub struct Lifetime {
    pub time_left: i32,
}

/// A pending hit: the damage amount and the impact position.
#[derive(Debug, Copy, Clone, PartialEq, Eq, Structural)]
pub enum DamageEvent {
    DamageTaken(u32, Vec2),
}

/// What the damage/death pass does when an entity dies. A plain description:
/// the pass itself enqueues the deferred spawn.
#[derive(Debug, Copy, Clone, PartialEq, Eq, Structural)]
pub enum DeathEffect {
    /// Nothing happens beyond the deletion itself.
    NoEffect,
    /// An explosion effect entity is spawned near the impact position,
    /// drawn at `size` screen pixels.
    SpawnExplosion { size: i32 },
}

/// Current and maximum hit points, the damage events queued against the
/// owner this frame, and the reaction to the owner's death.
#[derive(Debug)]
pub struct Health {
    pub health: u32,
    pub max_health: u32,
    pub damage_events: Vec<DamageEvent>,
    pub on_death: DeathEffect,
}

/// The mathematical value of a `Health` component.
pub ghost struct HealthV {
    pub health: u32,
    pub max_health: u32,
    pub damage_events: Seq<DamageEvent>,
    pub on_death: DeathEffect,
}

impl View for Health {
    type V = HealthV;

    open spec fn view(&self) -> HealthV {
        HealthV {
            health: self.health,
            max_health: self.max_health,
            damage_events: self.damage_events@,
            on_death: self.on_death,
        }
    }
}

/// Current hit points never exceed the maximum.
pub open spec fn health_wf(h: HealthV) -> bool {
    h.health <= h.max_health
}

impl Health {
    pub fn new(health: u32, on_death: DeathEffect) -> (r: Health)
        ensures
            r@ == (HealthV { health, max_health: health, damage_events: Seq::empty(), on_death }),
            health_wf(r@),
    {
        Health { health, max_health: health, damage_events: Vec::new(), on_death }
    }

    pub fn no_death_event(health: u32) -> (r: Health)
        ensures
            r@ == (HealthV {
                health,
                max_health: health,
                damage_events: Seq::empty(),
                on_death: DeathEffect::NoEffect,
            }),
            health_wf(r@),
    {
        Health { health, max_health: health, damage_events: Vec::new(), on_death: DeathEffect::NoEffect }
    }

    /// Queues a damage event; the hit points themselves change only when
    /// the damage/death pass drains the queue.
    pub fn apply_damage(&mut self, damage: &Damage, location: Vec2)
        ensures
            final(self)@ == (HealthV {
                damage_events: old(self)@.damage_events.push(
                    DamageEvent::DamageTaken(damage.damage, location),
                ),
                ..old(self)@
            }),
    {
        self.damage_events.push(DamageEvent::DamageTaken(damage.damage, location));
    }
}

/// The damage an entity deals on contact.
#[derive(Debug, Copy, Clone, PartialEq, Eq, Structural)]
pub struct Damage {
    pub damage: u32,
}

impl Damage {
    pub fn new(damage: u32) -> (r: Damage)
        ensures
            r.damage == damage,
    {
        Damage { damage }
    }
}

/// A human-readable label for an entity, for diagnostics only.
#[derive(Debug)]
pub struct Name {
    pub name: String,
}

/// A region of a spritesheet, in pixels.
#[derive(Debug, Copy, Clone, PartialEq, Eq, Structural)]
pub struct Rect {
    pub x: i32,
    pub y: i32,
    pub w: u32,
    pub h: u32,
}

/// A point on screen, in pixels.
#[derive(Debug, Copy, Clone, PartialEq, Eq, Structural)]
pub struct Point {
    pub x: i32,
    pub y: i32,
}

/// What the render query reports for an entity: which spritesheet to draw
/// from, the region of it to draw, and the on-screen size in pixels.
#[derive(Debug, Copy, Clone, PartialEq, Eq, Structural)]
pub struct Sprite {
    /// The specific spritesheet to render from.
    pub spritesheet: usize,
    /// The current region of the spritesheet to be rendered.
    pub src_rect: Rect,
    /// Size in pixels on screen.
    pub size: Point,
}

} // verus!
