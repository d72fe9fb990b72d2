//! The entity/component store.
//!
//! An entity is a slot index plus a generation counter; a handle whose
//! generation no longer matches its slot is stale and reads as absent.
//! Components live in per-slot option fields. Creation and deletion
//! requested during a pass are queued and committed by [`World::maintain`]
//! at frame end: first every queued creation, then every queued deletion,
//! each in submission order. Deleting a dead or stale handle is a no-op,
//! never an error.

use vstd::prelude::*;
use vstd::pervasive::VecAdditionalExecFns;

use crate::animation::Animation;
use crate::collision::CircleCollider;
use crate::components::Damage;
use crate::components::Health;
use crate::components::HealthV;
use crate::components::KeyboardControlled;
use crate::components::Lifetime;
use crate::components::Name;
use crate::components::Position;
use crate::components::Projectile;
use crate::components::Sprite;
use crate::components::Velocity;
use crate::enemy::Enemy;
use crate::player::Player;
use crate::weapon::Weapon;

verus! {

/// A handle to an entity: the slot it occupies and the generation the slot
/// had when the entity was created.
#[derive(Debug, Copy, Clone, PartialEq, Eq, Structural)]
pub struct Entity {
    pub id: usize,
    pub generation: u32,
}

/// The full component set an entity may carry. Also the shape of a deferred
/// creation request: the new entity gets exactly these components.
#[derive(Debug)]
pub struct Bundle {
    pub position: Option<Position>,
    pub velocity: Option<Velocity>,
    pub collider: Option<CircleCollider>,
    pub health: Option<Health>,
    pub damage: Option<Damage>,
    pub weapon: Option<Weapon>,
    pub enemy: Option<Enemy>,
    pub lifetime: Option<Lifetime>,
    pub projectile: Option<Projectile>,
    pub player: Option<Player>,
    pub keyboard: Option<KeyboardControlled>,
    pub sprite: Option<Sprite>,
    pub animation: Option<Animation>,
    pub name: Option<Name>,
}

/// The mathematical value of an option of healths.
pub open spec fn health_opt_v(h: Option<Health>) -> Option<HealthV> {
    match h {
        Some(x) => Some(x@),
        None => None,
    }
}

/// The mathematical value of an option of names.
pub open spec fn name_opt_v(n: Option<Name>) -> Option<Seq<char>> {
    match n {
        Some(x) => Some(x.name@),
        None => None,
    }
}

/// The mathematical value of a component bundle.
#[verifier::ext_equal]
pub ghost struct BundleV {
    pub position: Option<Position>,
    pub velocity: Option<Velocity>,
    pub collider: Option<CircleCollider>,
    pub health: Option<HealthV>,
    pub damage: Option<Damage>,
    pub weapon: Option<Weapon>,
    pub enemy: Option<Enemy>,
    pub lifetime: Option<Lifetime>,
    pub projectile: Option<Projectile>,
    pub player: Option<Player>,
    pub keyboard: Option<KeyboardControlled>,
    pub sprite: Option<Sprite>,
    pub animation: Option<Animation>,
    pub name: Option<Seq<char>>,
}

impl View for Bundle {
    type V = BundleV;

    open spec fn view(&self) -> BundleV {
        BundleV {
            position: self.position,
            velocity: self.velocity,
            collider: self.collider,
            health: health_opt_v(self.health),
            damage: self.damage,
            weapon: self.weapon,
            enemy: self.enemy,
            lifetime: self.lifetime,
            projectile: self.projectile,
            player: self.player,
            keyboard: self.keyboard,
            sprite: self.sprite,
            animation: self.animation,
            name: name_opt_v(self.name),
        }
    }
}

/// A bundle with no components at all.
pub open spec fn bundle_v_empty() -> BundleV {
    BundleV {
        position: None,
        velocity: None,
        collider: None,
        health: None,
        damage: None,
        weapon: None,
        enemy: None,
        lifetime: None,
        projectile: None,
        player: None,
        keyboard: None,
        sprite: None,
        animation: None,
        name: None,
    }
}

impl Bundle {
    pub fn empty() -> (r: Bundle)
        ensures
            r@ == bundle_v_empty(),
    {
        Bundle {
            position: None,
            velocity: None,
            collider: None,
            health: None,
            damage: None,
            weapon: None,
            enemy: None,
            lifetime: None,
            projectile: None,
            player: None,
            keyboard: None,
            sprite: None,
            animation: None,
            name: None,
        }
    }
}

/// One entity slot of the store.
#[derive(Debug)]
pub struct Slot {
    pub alive: bool,
    pub generation: u32,
    pub comps: Bundle,
}

/// The mathematical value of a slot.
#[verifier::ext_equal]
pub ghost struct SlotV {
    pub alive: bool,
    pub generation: u32,
    pub comps: BundleV,
}

impl View for Slot {
    type V = SlotV;

    open spec fn view(&self) -> SlotV {
        SlotV { alive: self.alive, generation: self.generation, comps: self.comps@ }
    }
}

/// The mathematical values of a slot vector.
pub open spec fn slots_v(s: Seq<Slot>) -> Seq<SlotV> {
    s.map_values(|x: Slot| x@)
}

/// The store: the slots, plus the deferred creation and deletion queues.
#[derive(Debug)]
pub struct World {
    pub slots: Vec<Slot>,
    pub pending_spawns: Vec<Bundle>,
    pub pending_deletes: Vec<Entity>,
}

/// The mathematical value of the store.
#[verifier::ext_equal]
pub ghost struct WorldV {
    pub slots: Seq<SlotV>,
    pub pending_spawns: Seq<BundleV>,
    pub pending_deletes: Seq<Entity>,
}

impl View for World {
    type V = WorldV;

    open spec fn view(&self) -> WorldV {
        WorldV {
            slots: slots_v(self.slots@),
            pending_spawns: self.pending_spawns@.map_values(|b: Bundle| b@),
            pending_deletes: self.pending_deletes@,
        }
    }
}

/// Whether a handle still names a live entity: the slot exists, is alive,
/// and keeps the handle's generation.
pub open spec fn slot_live(slots: Seq<SlotV>, e: Entity) -> bool {
    e.id < slots.len() && slots[e.id as int].alive && slots[e.id as int].generation == e.generation
}

/// Whether a handle names a live entity of the store.
pub open spec fn live(w: WorldV, e: Entity) -> bool {
    slot_live(w.slots, e)
}

/// The next generation of a slot; the counter stops at its maximum.
pub open spec fn bump_generation(g: u32) -> u32 {
    if g < u32::MAX {
        (g + 1) as u32
    } else {
        g
    }
}

/// The lowest dead slot index, or the length when every slot is alive.
pub open spec fn first_free(slots: Seq<SlotV>) -> int
    decreases slots.len(),
{
    if slots.len() == 0 {
        0
    } else if !slots[0].alive {
        0
    } else {
        1 + first_free(slots.drop_first())
    }
}

/// `first_free` is the index of the first dead slot.
pub proof fn lemma_first_free_at(slots: Seq<SlotV>, i: int)
    requires
        0 <= i <= slots.len(),
        forall|j: int| 0 <= j < i ==> slots[j].alive,
        i < slots.len() ==> !slots[i].alive,
    ensures
        first_free(slots) == i,
    decreases i,
{
    if slots.len() == 0 {
    } else if i == 0 {
    } else {
        assert(slots[0].alive);
        lemma_first_free_at(slots.drop_first(), i - 1);
    }
}

/// `first_free` stays within the slot count.
pub proof fn lemma_first_free_in_range(slots: Seq<SlotV>)
    ensures
        0 <= first_free(slots) <= slots.len(),
        first_free(slots) < slots.len() ==> !slots[first_free(slots)].alive,
    decreases slots.len(),
{
    if slots.len() == 0 {
    } else if !slots[0].alive {
    } else {
        lemma_first_free_in_range(slots.drop_first());
    }
}

/// Realizing one creation: the bundle lands in the first dead slot, which
/// keeps its generation, or in a fresh slot at the end.
pub open spec fn spawn_slots(slots: Seq<SlotV>, b: BundleV) -> Seq<SlotV> {
    let id = first_free(slots);
    if id < slots.len() {
        slots.update(id, SlotV { alive: true, generation: slots[id].generation, comps: b })
    } else {
        slots.push(SlotV { alive: true, generation: 0, comps: b })
    }
}

/// Realizing a queue of creations in submission order.
pub open spec fn apply_spawns(slots: Seq<SlotV>, bs: Seq<BundleV>) -> Seq<SlotV>
    decreases bs.len(),
{
    if bs.len() == 0 {
        slots
    } else {
        spawn_slots(apply_spawns(slots, bs.drop_last()), bs.last())
    }
}

/// Applying one deletion: a live handle's slot dies, its components are
/// dropped and its generation advances, so stale handles read as absent;
/// a dead or stale handle changes nothing.
pub open spec fn delete_slots(slots: Seq<SlotV>, e: Entity) -> Seq<SlotV> {
    if slot_live(slots, e) {
        slots.update(
            e.id as int,
            SlotV {
                alive: false,
                generation: bump_generation(slots[e.id as int].generation),
                comps: bundle_v_empty(),
            },
        )
    } else {
        slots
    }
}

/// Applying a queue of deletions in submission order.
pub open spec fn apply_deletes(slots: Seq<SlotV>, es: Seq<Entity>) -> Seq<SlotV>
    decreases es.len(),
{
    if es.len() == 0 {
        slots
    } else {
        delete_slots(apply_deletes(slots, es.drop_last()), es.last())
    }
}

/// The end-of-frame commit: all queued creations, then all queued
/// deletions, each in submission order; both queues end empty.
pub open spec fn maintain_spec(w: WorldV) -> WorldV {
    WorldV {
        slots: apply_deletes(apply_spawns(w.slots, w.pending_spawns), w.pending_deletes),
        pending_spawns: Seq::empty(),
        pending_deletes: Seq::empty(),
    }
}

/// Scans for the first dead slot.
fn find_free(slots: &Vec<Slot>) -> (r: usize)
    ensures
        r as int == first_free(slots_v(slots@)),
{
    let mut i: usize = 0;
    while i < slots.len()
        invariant
            i <= slots.len(),
            forall|j: int| 0 <= j < i ==> slots_v(slots@)[j].alive,
        decreases slots.len() - i,
    {
        if !slots[i].alive {
            proof {
                lemma_first_free_at(slots_v(slots@), i as int);
            }
            return i;
        }
        i = i + 1;
    }
    proof {
        lemma_first_free_at(slots_v(slots@), i as int);
    }
    i
}

/// Realizes one creation in the slot vector and returns the new handle.
fn spawn_into(slots: &mut Vec<Slot>, b: Bundle) -> (e: Entity)
    ensures
        slots_v(final(slots)@) == spawn_slots(slots_v(old(slots)@), b@),
        e.id as int == first_free(slots_v(old(slots)@)),
        slot_live(slots_v(final(slots)@), e),
{
    let idx = find_free(slots);
    proof {
        lemma_first_free_in_range(slots_v(slots@));
    }
    if idx < slots.len() {
        let generation = slots[idx].generation;
        slots.set(idx, Slot { alive: true, generation, comps: b });
        let e = Entity { id: idx, generation };
        proof {
            assert(slots_v(slots@) =~~= spawn_slots(slots_v(old(slots)@), b@));
        }
        e
    } else {
        slots.push(Slot { alive: true, generation: 0, comps: b });
        let e = Entity { id: idx, generation: 0 };
        proof {
            assert(slots_v(slots@) =~~= spawn_slots(slots_v(old(slots)@), b@));
        }
        e
    }
}

/// Applies one deletion to the slot vector.
fn delete_in(slots: &mut Vec<Slot>, e: Entity)
    ensures
        slots_v(final(slots)@) == delete_slots(slots_v(old(slots)@), e),
{
    if e.id < slots.len() {
        let alive = slots[e.id].alive;
        let generation = slots[e.id].generation;
        if alive && generation == e.generation {
            let bumped = if generation < u32::MAX {
                generation + 1
            } else {
                generation
            };
            slots.set(e.id, Slot { alive: false, generation: bumped, comps: Bundle::empty() });
            proof {
                assert(slots_v(slots@) =~~= delete_slots(slots_v(old(slots)@), e));
            }
            return;
        }
    }
    proof {
        assert(slots_v(slots@) =~~= delete_slots(slots_v(old(slots)@), e));
    }
}

impl World {
    /// An empty store: no slots, nothing queued.
    pub fn new() -> (r: World)
        ensures
            r@.slots == Seq::<SlotV>::empty(),
            r@.pending_spawns == Seq::<BundleV>::empty(),
            r@.pending_deletes == Seq::<Entity>::empty(),
    {
        let r = World { slots: Vec::new(), pending_spawns: Vec::new(), pending_deletes: Vec::new() };
        proof {
            assert(r@.slots =~~= Seq::<SlotV>::empty());
            assert(r@.pending_spawns =~~= Seq::<BundleV>::empty());
        }
        r
    }

    /// Immediately creates an entity carrying the bundle's components.
    /// For use outside active passes (bootstrap, tests); passes queue
    /// creations through [`World::queue_spawn`] instead.
    pub fn spawn_now(&mut self, b: Bundle) -> (e: Entity)
        ensures
            final(self)@ == (WorldV { slots: spawn_slots(old(self)@.slots, b@), ..old(self)@ }),
            e.id as int == first_free(old(self)@.slots),
            live(final(self)@, e),
    {
        let e = spawn_into(&mut self.slots, b);
        e
    }

    /// Immediately creates an entity with no components.
    pub fn create(&mut self) -> (e: Entity)
        ensures
            final(self)@ == (WorldV {
                slots: spawn_slots(old(self)@.slots, bundle_v_empty()),
                ..old(self)@
            }),
            e.id as int == first_free(old(self)@.slots),
            live(final(self)@, e),
    {
        self.spawn_now(Bundle::empty())
    }

    /// Queues a deferred creation; the store itself is untouched until
    /// the next [`World::maintain`].
    pub fn queue_spawn(&mut self, b: Bundle)
        ensures
            final(self)@ == (WorldV {
                pending_spawns: old(self)@.pending_spawns.push(b@),
                ..old(self)@
            }),
    {
        self.pending_spawns.push(b);
        proof {
            assert(self@.pending_spawns =~~= old(self)@.pending_spawns.push(b@));
        }
    }

    /// Marks an entity for removal at the next [`World::maintain`].
    /// Marking a dead or stale handle is accepted and commits to nothing.
    pub fn delete(&mut self, e: Entity)
        ensures
            final(self)@ == (WorldV {
                pending_deletes: old(self)@.pending_deletes.push(e),
                ..old(self)@
            }),
    {
        self.pending_deletes.push(e);
    }

    /// The end-of-frame commit: realizes all queued creations, then all
    /// queued deletions, in submission order, and empties both queues.
    pub fn maintain(&mut self)
        ensures
            final(self)@ == maintain_spec(old(self)@),
    {
        let ghost spawns0 = self@.pending_spawns;
        let ghost slots0 = self@.slots;
        let mut spawns: Vec<Bundle> = Vec::new();
        core::mem::swap(&mut spawns, &mut self.pending_spawns);
        let mut k: usize = 0;
        while k < spawns.len()
            invariant
                k <= spawns.len(),
                spawns@.len() == spawns0.len(),
                forall|j: int| k <= j < spawns@.len() ==> spawns@[j]@ == spawns0[j],
                slots_v(self.slots@) == apply_spawns(slots0, spawns0.subrange(0, k as int)),
                self.pending_spawns@.len() == 0,
                self.pending_deletes@ == old(self)@.pending_deletes,
            decreases spawns.len() - k,
        {
            let mut b = Bundle::empty();
            spawns.set_and_swap(k, &mut b);
            let ghost pre = slots_v(self.slots@);
            let _ = spawn_into(&mut self.slots, b);
            proof {
                assert(spawns0.subrange(0, k as int + 1).drop_last() =~= spawns0.subrange(
                    0,
                    k as int,
                ));
                assert(slots_v(self.slots@) == apply_spawns(slots0, spawns0.subrange(0, k as int + 1)));
            }
            k = k + 1;
        }
        proof {
            assert(spawns0.subrange(0, spawns0.len() as int) =~= spawns0);
        }
        let ghost deletes0 = self@.pending_deletes;
        let ghost slots1 = slots_v(self.slots@);
        let mut m: usize = 0;
        while m < self.pending_deletes.len()
            invariant
                m <= self.pending_deletes.len(),
                self.pending_deletes@ == deletes0,
                slots_v(self.slots@) == apply_deletes(slots1, deletes0.subrange(0, m as int)),
                self.pending_spawns@.len() == 0,
            decreases self.pending_deletes.len() - m,
        {
            let e = self.pending_deletes[m];
            delete_in(&mut self.slots, e);
            proof {
                assert(deletes0.subrange(0, m as int + 1).drop_last() =~= deletes0.subrange(
                    0,
                    m as int,
                ));
            }
            m = m + 1;
        }
        self.pending_deletes = Vec::new();
        proof {
            assert(deletes0.subrange(0, deletes0.len() as int) =~= deletes0);
            assert(self@.pending_spawns =~~= Seq::<BundleV>::empty());
            assert(self@.pending_deletes =~~= Seq::<Entity>::empty());
            assert(self@ =~~= maintain_spec(old(self)@));
        }
    }

    /// How many slots the store has ever allocated.
    pub fn slot_count(&self) -> (r: usize)
        ensures
            r == self@.slots.len(),
    {
        self.slots.len()
    }

    /// Whether a handle names a live entity.
    pub fn is_live(&self, e: Entity) -> (r: bool)
        ensures
            r == live(self@, e),
    {
        e.id < self.slots.len() && self.slots[e.id].alive && self.slots[e.id].generation
            == e.generation
    }
}

/// The store after replacing a live slot's component bundle.
pub open spec fn with_comps(w: WorldV, id: int, c: BundleV) -> WorldV {
    WorldV { slots: w.slots.update(id, SlotV { comps: c, ..w.slots[id] }), ..w }
}

/// The component bundle at a handle's slot.
pub open spec fn comps_at(w: WorldV, e: Entity) -> BundleV {
    w.slots[e.id as int].comps
}

impl World {
    /// Immediately attaches a position to a live entity; a dead or stale
    /// handle is ignored.
    pub fn insert_position(&mut self, e: Entity, c: Position)
        ensures
            final(self)@ == (if live(old(self)@, e) {
                with_comps(
                    old(self)@,
                    e.id as int,
                    BundleV { position: Some(c), ..comps_at(old(self)@, e) },
                )
            } else {
                old(self)@
            }),
    {
        if e.id < self.slots.len() {
            let slot = &mut self.slots[e.id];
            if slot.alive && slot.generation == e.generation {
                slot.comps.position = Some(c);
            }
        }
        proof {
            assert(self@ =~~= (if live(old(self)@, e) {
                with_comps(
                    old(self)@,
                    e.id as int,
                    BundleV { position: Some(c), ..comps_at(old(self)@, e) },
                )
            } else {
                old(self)@
            }));
        }
    }

    /// Immediately removes the position of a live entity; absent components
    /// and dead or stale handles are ignored.
    pub fn remove_position(&mut self, e: Entity)
        ensures
            final(self)@ == (if live(old(self)@, e) {
                with_comps(
                    old(self)@,
                    e.id as int,
                    BundleV { position: None, ..comps_at(old(self)@, e) },
                )
            } else {
                old(self)@
            }),
    {
        if e.id < self.slots.len() {
            let slot = &mut self.slots[e.id];
            if slot.alive && slot.generation == e.generation {
                slot.comps.position = None;
            }
        }
        proof {
            assert(self@ =~~= (if live(old(self)@, e) {
                with_comps(
                    old(self)@,
                    e.id as int,
                    BundleV { position: None, ..comps_at(old(self)@, e) },
                )
            } else {
                old(self)@
            }));
        }
    }

    /// Reads the position of a live entity; a missing component or a dead
    /// or stale handle reads as absent, never an error.
    pub fn get_position(&self, e: Entity) -> (r: Option<Position>)
        ensures
            r == (if live(self@, e) {
                comps_at(self@, e).position
            } else {
                None::<Position>
            }),
    {
        if e.id < self.slots.len() && self.slots[e.id].alive && self.slots[e.id].generation
            == e.generation {
            self.slots[e.id].comps.position
        } else {
            None
        }
    }
}

impl World {
    /// Immediately attaches a velocity component to a live entity; a dead or
    /// stale handle is ignored.
    pub fn insert_velocity(&mut self, e: Entity, c: Velocity)
        ensures
            final(self)@ == (if live(old(self)@, e) {
                with_comps(
                    old(self)@,
                    e.id as int,
                    BundleV { velocity: Some(c), ..comps_at(old(self)@, e) },
                )
            } else {
                old(self)@
            }),
    {
        if e.id < self.slots.len() {
            let slot = &mut self.slots[e.id];
            if slot.alive && slot.generation == e.generation {
                slot.comps.velocity = Some(c);
            }
        }
        proof {
            assert(self@ =~~= (if live(old(self)@, e) {
                with_comps(
                    old(self)@,
                    e.id as int,
                    BundleV { velocity: Some(c), ..comps_at(old(self)@, e) },
                )
            } else {
                old(self)@
            }));
        }
    }

    /// Immediately removes the velocity component of a live entity; absent
    /// components and dead or stale handles are ignored.
    pub fn remove_velocity(&mut self, e: Entity)
        ensures
            final(self)@ == (if live(old(self)@, e) {
                with_comps(
                    old(self)@,
                    e.id as int,
                    BundleV { velocity: None, ..comps_at(old(self)@, e) },
                )
            } else {
                old(self)@
            }),
    {
        if e.id < self.slots.len() {
            let slot = &mut self.slots[e.id];
            if slot.alive && slot.generation == e.generation {
                slot.comps.velocity = None;
            }
        }
        proof {
            assert(self@ =~~= (if live(old(self)@, e) {
                with_comps(
                    old(self)@,
                    e.id as int,
                    BundleV { velocity: None, ..comps_at(old(self)@, e) },
                )
            } else {
                old(self)@
            }));
        }
    }

    /// Reads the velocity component of a live entity; a missing component or a
    /// dead or stale handle reads as absent, never an error.
    pub fn get_velocity(&self, e: Entity) -> (r: Option<Velocity>)
        ensures
            r == (if live(self@, e) {
                comps_at(self@, e).velocity
            } else {
                None::<Velocity>
            }),
    {
        if e.id < self.slots.len() && self.slots[e.id].alive && self.slots[e.id].generation
            == e.generation {
            self.slots[e.id].comps.velocity
        } else {
            None
        }
    }

    /// Immediately attaches a collider component to a live entity; a dead or
    /// stale handle is ignored.
    pub fn insert_collider(&mut self, e: Entity, c: CircleCollider)
        ensures
            final(self)@ == (if live(old(self)@, e) {
                with_comps(
                    old(self)@,
                    e.id as int,
                    BundleV { collider: Some(c), ..comps_at(old(self)@, e) },
                )
            } else {
                old(self)@
            }),
    {
        if e.id < self.slots.len() {
            let slot = &mut self.slots[e.id];
            if slot.alive && slot.generation == e.generation {
                slot.comps.collider = Some(c);
            }
        }
        proof {
            assert(self@ =~~= (if live(old(self)@, e) {
                with_comps(
                    old(self)@,
                    e.id as int,
                    BundleV { collider: Some(c), ..comps_at(old(self)@, e) },
                )
            } else {
                old(self)@
            }));
        }
    }

    /// Immediately removes the collider component of a live entity; absent
    /// components and dead or stale handles are ignored.
    pub fn remove_collider(&mut self, e: Entity)
        ensures
            final(self)@ == (if live(old(self)@, e) {
                with_comps(
                    old(self)@,
                    e.id as int,
                    BundleV { collider: None, ..comps_at(old(self)@, e) },
                )
            } else {
                old(self)@
            }),
    {
        if e.id < self.slots.len() {
            let slot = &mut self.slots[e.id];
            if slot.alive && slot.generation == e.generation {
                slot.comps.collider = None;
            }
        }
        proof {
            assert(self@ =~~= (if live(old(self)@, e) {
                with_comps(
                    old(self)@,
                    e.id as int,
                    BundleV { collider: None, ..comps_at(old(self)@, e) },
                )
            } else {
                old(self)@
            }));
        }
    }

    /// Reads the collider component of a live entity; a missing component or a
    /// dead or stale handle reads as absent, never an error.
    pub fn get_collider(&self, e: Entity) -> (r: Option<CircleCollider>)
        ensures
            r == (if live(self@, e) {
                comps_at(self@, e).collider
            } else {
                None::<CircleCollider>
            }),
    {
        if e.id < self.slots.len() && self.slots[e.id].alive && self.slots[e.id].generation
            == e.generation {
            self.slots[e.id].comps.collider
        } else {
            None
        }
    }

    /// Immediately attaches a health component to a live entity; a dead or
    /// stale handle is ignored.
    pub fn insert_health(&mut self, e: Entity, c: Health)
        ensures
            final(self)@ == (if live(old(self)@, e) {
                with_comps(
                    old(self)@,
                    e.id as int,
                    BundleV { health: Some(c@), ..comps_at(old(self)@, e) },
                )
            } else {
                old(self)@
            }),
    {
        if e.id < self.slots.len() {
            let slot = &mut self.slots[e.id];
            if slot.alive && slot.generation == e.generation {
                slot.comps.health = Some(c);
            }
        }
        proof {
            assert(self@ =~~= (if live(old(self)@, e) {
                with_comps(
                    old(self)@,
                    e.id as int,
                    BundleV { health: Some(c@), ..comps_at(old(self)@, e) },
                )
            } else {
                old(self)@
            }));
        }
    }

    /// Immediately removes the health component of a live entity; absent
    /// components and dead or stale handles are ignored.
    pub fn remove_health(&mut self, e: Entity)
        ensures
            final(self)@ == (if live(old(self)@, e) {
                with_comps(
                    old(self)@,
                    e.id as int,
                    BundleV { health: None, ..comps_at(old(self)@, e) },
                )
            } else {
                old(self)@
            }),
    {
        if e.id < self.slots.len() {
            let slot = &mut self.slots[e.id];
            if slot.alive && slot.generation == e.generation {
                slot.comps.health = None;
            }
        }
        proof {
            assert(self@ =~~= (if live(old(self)@, e) {
                with_comps(
                    old(self)@,
                    e.id as int,
                    BundleV { health: None, ..comps_at(old(self)@, e) },
                )
            } else {
                old(self)@
            }));
        }
    }

    /// Reads the health component of a live entity; a missing component or
    /// a dead or stale handle reads as absent, never an error.
    pub fn get_health(&self, e: Entity) -> (r: Option<&Health>)
        ensures
            match r {
                Some(h) => live(self@, e) && comps_at(self@, e).health == Some(h@),
                None => !(live(self@, e) && comps_at(self@, e).health is Some),
            },
    {
        if e.id < self.slots.len() && self.slots[e.id].alive && self.slots[e.id].generation
            == e.generation {
            self.slots[e.id].comps.health.as_ref()
        } else {
            None
        }
    }

    /// Immediately attaches a damage component to a live entity; a dead or
    /// stale handle is ignored.
    pub fn insert_damage(&mut self, e: Entity, c: Damage)
        ensures
            final(self)@ == (if live(old(self)@, e) {
                with_comps(
                    old(self)@,
                    e.id as int,
                    BundleV { damage: Some(c), ..comps_at(old(self)@, e) },
                )
            } else {
                old(self)@
            }),
    {
        if e.id < self.slots.len() {
            let slot = &mut self.slots[e.id];
            if slot.alive && slot.generation == e.generation {
                slot.comps.damage = Some(c);
            }
        }
        proof {
            assert(self@ =~~= (if live(old(self)@, e) {
                with_comps(
                    old(self)@,
                    e.id as int,
                    BundleV { damage: Some(c), ..comps_at(old(self)@, e) },
                )
            } else {
                old(self)@
            }));
        }
    }

    /// Immediately removes the damage component of a live entity; absent
    /// components and dead or stale handles are ignored.
    pub fn remove_damage(&mut self, e: Entity)
        ensures
            final(self)@ == (if live(old(self)@, e) {
                with_comps(
                    old(self)@,
                    e.id as int,
                    BundleV { damage: None, ..comps_at(old(self)@, e) },
                )
            } else {
                old(self)@
            }),
    {
        if e.id < self.slots.len() {
            let slot = &mut self.slots[e.id];
            if slot.alive && slot.generation == e.generation {
                slot.comps.damage = None;
            }
        }
        proof {
            assert(self@ =~~= (if live(old(self)@, e) {
                with_comps(
                    old(self)@,
                    e.id as int,
                    BundleV { damage: None, ..comps_at(old(self)@, e) },
                )
            } else {
                old(self)@
            }));
        }
    }

    /// Reads the damage component of a live entity; a missing component or a
    /// dead or stale handle reads as absent, never an error.
    pub fn get_damage(&self, e: Entity) -> (r: Option<Damage>)
        ensures
            r == (if live(self@, e) {
                comps_at(self@, e).damage
            } else {
                None::<Damage>
            }),
    {
        if e.id < self.slots.len() && self.slots[e.id].alive && self.slots[e.id].generation
            == e.generation {
            self.slots[e.id].comps.damage
        } else {
            None
        }
    }

    /// Immediately attaches a weapon component to a live entity; a dead or
    /// stale handle is ignored.
    pub fn insert_weapon(&mut self, e: Entity, c: Weapon)
        ensures
            final(self)@ == (if live(old(self)@, e) {
                with_comps(
                    old(self)@,
                    e.id as int,
                    BundleV { weapon: Some(c), ..comps_at(old(self)@, e) },
                )
            } else {
                old(self)@
            }),
    {
        if e.id < self.slots.len() {
            let slot = &mut self.slots[e.id];
            if slot.alive && slot.generation == e.generation {
                slot.comps.weapon = Some(c);
            }
        }
        proof {
            assert(self@ =~~= (if live(old(self)@, e) {
                with_comps(
                    old(self)@,
                    e.id as int,
                    BundleV { weapon: Some(c), ..comps_at(old(self)@, e) },
                )
            } else {
                old(self)@
            }));
        }
    }

    /// Immediately removes the weapon component of a live entity; absent
    /// components and dead or stale handles are ignored.
    pub fn remove_weapon(&mut self, e: Entity)
        ensures
            final(self)@ == (if live(old(self)@, e) {
                with_comps(
                    old(self)@,
                    e.id as int,
                    BundleV { weapon: None, ..comps_at(old(self)@, e) },
                )
            } else {
                old(self)@
            }),
    {
        if e.id < self.slots.len() {
            let slot = &mut self.slots[e.id];
            if slot.alive && slot.generation == e.generation {
                slot.comps.weapon = None;
            }
        }
        proof {
            assert(self@ =~~= (if live(old(self)@, e) {
                with_comps(
                    old(self)@,
                    e.id as int,
                    BundleV { weapon: None, ..comps_at(old(self)@, e) },
                )
            } else {
                old(self)@
            }));
        }
    }

    /// Reads the weapon component of a live entity; a missing component or a
    /// dead or stale handle reads as absent, never an error.
    pub fn get_weapon(&self, e: Entity) -> (r: Option<Weapon>)
        ensures
            r == (if live(self@, e) {
                comps_at(self@, e).weapon
            } else {
                None::<Weapon>
            }),
    {
        if e.id < self.slots.len() && self.slots[e.id].alive && self.slots[e.id].generation
            == e.generation {
            self.slots[e.id].comps.weapon
        } else {
            None
        }
    }

    /// Immediately attaches a enemy component to a live entity; a dead or
    /// stale handle is ignored.
    pub fn insert_enemy(&mut self, e: Entity, c: Enemy)
        ensures
            final(self)@ == (if live(old(self)@, e) {
                with_comps(
                    old(self)@,
                    e.id as int,
                    BundleV { enemy: Some(c), ..comps_at(old(self)@, e) },
                )
            } else {
                old(self)@
            }),
    {
        if e.id < self.slots.len() {
            let slot = &mut self.slots[e.id];
            if slot.alive && slot.generation == e.generation {
                slot.comps.enemy = Some(c);
            }
        }
        proof {
            assert(self@ =~~= (if live(old(self)@, e) {
                with_comps(
                    old(self)@,
                    e.id as int,
                    BundleV { enemy: Some(c), ..comps_at(old(self)@, e) },
                )
            } else {
                old(self)@
            }));
        }
    }

    /// Immediately removes the enemy component of a live entity; absent
    /// components and dead or stale handles are ignored.
    pub fn remove_enemy(&mut self, e: Entity)
        ensures
            final(self)@ == (if live(old(self)@, e) {
                with_comps(
                    old(self)@,
                    e.id as int,
                    BundleV { enemy: None, ..comps_at(old(self)@, e) },
                )
            } else {
                old(self)@
            }),
    {
        if e.id < self.slots.len() {
            let slot = &mut self.slots[e.id];
            if slot.alive && slot.generation == e.generation {
                slot.comps.enemy = None;
            }
        }
        proof {
            assert(self@ =~~= (if live(old(self)@, e) {
                with_comps(
                    old(self)@,
                    e.id as int,
                    BundleV { enemy: None, ..comps_at(old(self)@, e) },
                )
            } else {
                old(self)@
            }));
        }
    }

    /// Reads the enemy component of a live entity; a missing component or a
    /// dead or stale handle reads as absent, never an error.
    pub fn get_enemy(&self, e: Entity) -> (r: Option<Enemy>)
        ensures
            r == (if live(self@, e) {
                comps_at(self@, e).enemy
            } else {
                None::<Enemy>
            }),
    {
        if e.id < self.slots.len() && self.slots[e.id].alive && self.slots[e.id].generation
            == e.generation {
            self.slots[e.id].comps.enemy
        } else {
            None
        }
    }

    /// Immediately attaches a lifetime component to a live entity; a dead or
    /// stale handle is ignored.
    pub fn insert_lifetime(&mut self, e: Entity, c: Lifetime)
        ensures
            final(self)@ == (if live(old(self)@, e) {
                with_comps(
                    old(self)@,
                    e.id as int,
                    BundleV { lifetime: Some(c), ..comps_at(old(self)@, e) },
                )
            } else {
                old(self)@
            }),
    {
        if e.id < self.slots.len() {
            let slot = &mut self.slots[e.id];
            if slot.alive && slot.generation == e.generation {
                slot.comps.lifetime = Some(c);
            }
        }
        proof {
            assert(self@ =~~= (if live(old(self)@, e) {
                with_comps(
                    old(self)@,
                    e.id as int,
                    BundleV { lifetime: Some(c), ..comps_at(old(self)@, e) },
                )
            } else {
                old(self)@
            }));
        }
    }

    /// Immediately removes the lifetime component of a live entity; absent
    /// components and dead or stale handles are ignored.
    pub fn remove_lifetime(&mut self, e: Entity)
        ensures
            final(self)@ == (if live(old(self)@, e) {
                with_comps(
                    old(self)@,
                    e.id as int,
                    BundleV { lifetime: None, ..comps_at(old(self)@, e) },
                )
            } else {
                old(self)@
            }),
    {
        if e.id < self.slots.len() {
            let slot = &mut self.slots[e.id];
            if slot.alive && slot.generation == e.generation {
                slot.comps.lifetime = None;
            }
        }
        proof {
            assert(self@ =~~= (if live(old(self)@, e) {
                with_comps(
                    old(self)@,
                    e.id as int,
                    BundleV { lifetime: None, ..comps_at(old(self)@, e) },
                )
            } else {
                old(self)@
            }));
        }
    }

    /// Reads the lifetime component of a live entity; a missing component or a
    /// dead or stale handle reads as absent, never an error.
    pub fn get_lifetime(&self, e: Entity) -> (r: Option<Lifetime>)
        ensures
            r == (if live(self@, e) {
                comps_at(self@, e).lifetime
            } else {
                None::<Lifetime>
            }),
    {
        if e.id < self.slots.len() && self.slots[e.id].alive && self.slots[e.id].generation
            == e.generation {
            self.slots[e.id].comps.lifetime
        } else {
            None
        }
    }

    /// Immediately attaches a projectile component to a live entity; a dead or
    /// stale handle is ignored.
    pub fn insert_projectile(&mut self, e: Entity, c: Projectile)
        ensures
            final(self)@ == (if live(old(self)@, e) {
                with_comps(
                    old(self)@,
                    e.id as int,
                    BundleV { projectile: Some(c), ..comps_at(old(self)@, e) },
                )
            } else {
                old(self)@
            }),
    {
        if e.id < self.slots.len() {
            let slot = &mut self.slots[e.id];
            if slot.alive && slot.generation == e.generation {
                slot.comps.projectile = Some(c);
            }
        }
        proof {
            assert(self@ =~~= (if live(old(self)@, e) {
                with_comps(
                    old(self)@,
                    e.id as int,
                    BundleV { projectile: Some(c), ..comps_at(old(self)@, e) },
                )
            } else {
                old(self)@
            }));
        }
    }

    /// Immediately removes the projectile component of a live entity; absent
    /// components and dead or stale handles are ignored.
    pub fn remove_projectile(&mut self, e: Entity)
        ensures
            final(self)@ == (if live(old(self)@, e) {
                with_comps(
                    old(self)@,
                    e.id as int,
                    BundleV { projectile: None, ..comps_at(old(self)@, e) },
                )
            } else {
                old(self)@
            }),
    {
        if e.id < self.slots.len() {
            let slot = &mut self.slots[e.id];
            if slot.alive && slot.generation == e.generation {
                slot.comps.projectile = None;
            }
        }
        proof {
            assert(self@ =~~= (if live(old(self)@, e) {
                with_comps(
                    old(self)@,
                    e.id as int,
                    BundleV { projectile: None, ..comps_at(old(self)@, e) },
                )
            } else {
                old(self)@
            }));
        }
    }

    /// Reads the projectile component of a live entity; a missing component or a
    /// dead or stale handle reads as absent, never an error.
    pub fn get_projectile(&self, e: Entity) -> (r: Option<Projectile>)
        ensures
            r == (if live(self@, e) {
                comps_at(self@, e).projectile
            } else {
                None::<Projectile>
            }),
    {
        if e.id < self.slots.len() && self.slots[e.id].alive && self.slots[e.id].generation
            == e.generation {
            self.slots[e.id].comps.projectile
        } else {
            None
        }
    }

    /// Immediately attaches a player component to a live entity; a dead or
    /// stale handle is ignored.
    pub fn insert_player(&mut self, e: Entity, c: Player)
        ensures
            final(self)@ == (if live(old(self)@, e) {
                with_comps(
                    old(self)@,
                    e.id as int,
                    BundleV { player: Some(c), ..comps_at(old(self)@, e) },
                )
            } else {
                old(self)@
            }),
    {
        if e.id < self.slots.len() {
            let slot = &mut self.slots[e.id];
            if slot.alive && slot.generation == e.generation {
                slot.comps.player = Some(c);
            }
        }
        proof {
            assert(self@ =~~= (if live(old(self)@, e) {
                with_comps(
                    old(self)@,
                    e.id as int,
                    BundleV { player: Some(c), ..comps_at(old(self)@, e) },
                )
            } else {
                old(self)@
            }));
        }
    }

    /// Immediately removes the player component of a live entity; absent
    /// components and dead or stale handles are ignored.
    pub fn remove_player(&mut self, e: Entity)
        ensures
            final(self)@ == (if live(old(self)@, e) {
                with_comps(
                    old(self)@,
                    e.id as int,
                    BundleV { player: None, ..comps_at(old(self)@, e) },
                )
            } else {
                old(self)@
            }),
    {
        if e.id < self.slots.len() {
            let slot = &mut self.slots[e.id];
            if slot.alive && slot.generation == e.generation {
                slot.comps.player = None;
            }
        }
        proof {
            assert(self@ =~~= (if live(old(self)@, e) {
                with_comps(
                    old(self)@,
                    e.id as int,
                    BundleV { player: None, ..comps_at(old(self)@, e) },
                )
            } else {
                old(self)@
            }));
        }
    }

    /// Reads the player component of a live entity; a missing component or a
    /// dead or stale handle reads as absent, never an error.
    pub fn get_player(&self, e: Entity) -> (r: Option<Player>)
        ensures
            r == (if live(self@, e) {
                comps_at(self@, e).player
            } else {
                None::<Player>
            }),
    {
        if e.id < self.slots.len() && self.slots[e.id].alive && self.slots[e.id].generation
            == e.generation {
            self.slots[e.id].comps.player
        } else {
            None
        }
    }

    /// Immediately attaches a keyboard component to a live entity; a dead or
    /// stale handle is ignored.
    pub fn insert_keyboard(&mut self, e: Entity, c: KeyboardControlled)
        ensures
            final(self)@ == (if live(old(self)@, e) {
                with_comps(
                    old(self)@,
                    e.id as int,
                    BundleV { keyboard: Some(c), ..comps_at(old(self)@, e) },
                )
            } else {
                old(self)@
            }),
    {
        if e.id < self.slots.len() {
            let slot = &mut self.slots[e.id];
            if slot.alive && slot.generation == e.generation {
                slot.comps.keyboard = Some(c);
            }
        }
        proof {
            assert(self@ =~~= (if live(old(self)@, e) {
                with_comps(
                    old(self)@,
                    e.id as int,
                    BundleV { keyboard: Some(c), ..comps_at(old(self)@, e) },
                )
            } else {
                old(self)@
            }));
        }
    }

    /// Immediately removes the keyboard component of a live entity; absent
    /// components and dead or stale handles are ignored.
    pub fn remove_keyboard(&mut self, e: Entity)
        ensures
            final(self)@ == (if live(old(self)@, e) {
                with_comps(
                    old(self)@,
                    e.id as int,
                    BundleV { keyboard: None, ..comps_at(old(self)@, e) },
                )
            } else {
                old(self)@
            }),
    {
        if e.id < self.slots.len() {
            let slot = &mut self.slots[e.id];
            if slot.alive && slot.generation == e.generation {
                slot.comps.keyboard = None;
            }
        }
        proof {
            assert(self@ =~~= (if live(old(self)@, e) {
                with_comps(
                    old(self)@,
                    e.id as int,
                    BundleV { keyboard: None, ..comps_at(old(self)@, e) },
                )
            } else {
                old(self)@
            }));
        }
    }

    /// Reads the keyboard component of a live entity; a missing component or a
    /// dead or stale handle reads as absent, never an error.
    pub fn get_keyboard(&self, e: Entity) -> (r: Option<KeyboardControlled>)
        ensures
            r == (if live(self@, e) {
                comps_at(self@, e).keyboard
            } else {
                None::<KeyboardControlled>
            }),
    {
        if e.id < self.slots.len() && self.slots[e.id].alive && self.slots[e.id].generation
            == e.generation {
            self.slots[e.id].comps.keyboard
        } else {
            None
        }
    }

    /// Immediately attaches a sprite component to a live entity; a dead or
    /// stale handle is ignored.
    pub fn insert_sprite(&mut self, e: Entity, c: Sprite)
        ensures
            final(self)@ == (if live(old(self)@, e) {
                with_comps(
                    old(self)@,
                    e.id as int,
                    BundleV { sprite: Some(c), ..comps_at(old(self)@, e) },
                )
            } else {
                old(self)@
            }),
    {
        if e.id < self.slots.len() {
            let slot = &mut self.slots[e.id];
            if slot.alive && slot.generation == e.generation {
                slot.comps.sprite = Some(c);
            }
        }
        proof {
            assert(self@ =~~= (if live(old(self)@, e) {
                with_comps(
                    old(self)@,
                    e.id as int,
                    BundleV { sprite: Some(c), ..comps_at(old(self)@, e) },
                )
            } else {
                old(self)@
            }));
        }
    }

    /// Immediately removes the sprite component of a live entity; absent
    /// components and dead or stale handles are ignored.
    pub fn remove_sprite(&mut self, e: Entity)
        ensures
            final(self)@ == (if live(old(self)@, e) {
                with_comps(
                    old(self)@,
                    e.id as int,
                    BundleV { sprite: None, ..comps_at(old(self)@, e) },
                )
            } else {
                old(self)@
            }),
    {
        if e.id < self.slots.len() {
            let slot = &mut self.slots[e.id];
            if slot.alive && slot.generation == e.generation {
                slot.comps.sprite = None;
            }
        }
        proof {
            assert(self@ =~~= (if live(old(self)@, e) {
                with_comps(
                    old(self)@,
                    e.id as int,
                    BundleV { sprite: None, ..comps_at(old(self)@, e) },
                )
            } else {
                old(self)@
            }));
        }
    }

    /// Reads the sprite component of a live entity; a missing component or a
    /// dead or stale handle reads as absent, never an error.
    pub fn get_sprite(&self, e: Entity) -> (r: Option<Sprite>)
        ensures
            r == (if live(self@, e) {
                comps_at(self@, e).sprite
            } else {
                None::<Sprite>
            }),
    {
        if e.id < self.slots.len() && self.slots[e.id].alive && self.slots[e.id].generation
            == e.generation {
            self.slots[e.id].comps.sprite
        } else {
            None
        }
    }

    /// Immediately attaches a animation component to a live entity; a dead or
    /// stale handle is ignored.
    pub fn insert_animation(&mut self, e: Entity, c: Animation)
        ensures
            final(self)@ == (if live(old(self)@, e) {
                with_comps(
                    old(self)@,
                    e.id as int,
                    BundleV { animation: Some(c), ..comps_at(old(self)@, e) },
                )
            } else {
                old(self)@
            }),
    {
        if e.id < self.slots.len() {
            let slot = &mut self.slots[e.id];
            if slot.alive && slot.generation == e.generation {
                slot.comps.animation = Some(c);
            }
        }
        proof {
            assert(self@ =~~= (if live(old(self)@, e) {
                with_comps(
                    old(self)@,
                    e.id as int,
                    BundleV { animation: Some(c), ..comps_at(old(self)@, e) },
                )
            } else {
                old(self)@
            }));
        }
    }

    /// Immediately removes the animation component of a live entity; absent
    /// components and dead or stale handles are ignored.
    pub fn remove_animation(&mut self, e: Entity)
        ensures
            final(self)@ == (if live(old(self)@, e) {
                with_comps(
                    old(self)@,
                    e.id as int,
                    BundleV { animation: None, ..comps_at(old(self)@, e) },
                )
            } else {
                old(self)@
            }),
    {
        if e.id < self.slots.len() {
            let slot = &mut self.slots[e.id];
            if slot.alive && slot.generation == e.generation {
                slot.comps.animation = None;
            }
        }
        proof {
            assert(self@ =~~= (if live(old(self)@, e) {
                with_comps(
                    old(self)@,
                    e.id as int,
                    BundleV { animation: None, ..comps_at(old(self)@, e) },
                )
            } else {
                old(self)@
            }));
        }
    }

    /// Reads the animation component of a live entity; a missing component or a
    /// dead or stale handle reads as absent, never an error.
    pub fn get_animation(&self, e: Entity) -> (r: Option<Animation>)
        ensures
            r == (if live(self@, e) {
                comps_at(self@, e).animation
            } else {
                None::<Animation>
            }),
    {
        if e.id < self.slots.len() && self.slots[e.id].alive && self.slots[e.id].generation
            == e.generation {
            self.slots[e.id].comps.animation
        } else {
            None
        }
    }
}

impl World {
    /// Immediately attaches a name to a live entity; a dead or stale
    /// handle is ignored.
    pub fn insert_name(&mut self, e: Entity, c: Name)
        ensures
            final(self)@ == (if live(old(self)@, e) {
                with_comps(
                    old(self)@,
                    e.id as int,
                    BundleV { name: Some(c.name@), ..comps_at(old(self)@, e) },
                )
            } else {
                old(self)@
            }),
    {
        let ghost cv = c.name@;
        if e.id < self.slots.len() {
            let slot = &mut self.slots[e.id];
            if slot.alive && slot.generation == e.generation {
                slot.comps.name = Some(c);
            }
        }
        proof {
            assert(self@ =~~= (if live(old(self)@, e) {
                with_comps(
                    old(self)@,
                    e.id as int,
                    BundleV { name: Some(cv), ..comps_at(old(self)@, e) },
                )
            } else {
                old(self)@
            }));
        }
    }

    /// Immediately removes the name of a live entity; absent components
    /// and dead or stale handles are ignored.
    pub fn remove_name(&mut self, e: Entity)
        ensures
            final(self)@ == (if live(old(self)@, e) {
                with_comps(
                    old(self)@,
                    e.id as int,
                    BundleV { name: None, ..comps_at(old(self)@, e) },
                )
            } else {
                old(self)@
            }),
    {
        if e.id < self.slots.len() {
            let slot = &mut self.slots[e.id];
            if slot.alive && slot.generation == e.generation {
                slot.comps.name = None;
            }
        }
        proof {
            assert(self@ =~~= (if live(old(self)@, e) {
                with_comps(
                    old(self)@,
                    e.id as int,
                    BundleV { name: None, ..comps_at(old(self)@, e) },
                )
            } else {
                old(self)@
            }));
        }
    }

    /// Reads the name of a live entity; a missing component or a dead or
    /// stale handle reads as absent, never an error.
    pub fn get_name(&self, e: Entity) -> (r: Option<&Name>)
        ensures
            match r {
                Some(n) => live(self@, e) && comps_at(self@, e).name == Some(n.name@),
                None => !(live(self@, e) && comps_at(self@, e).name is Some),
            },
    {
        if e.id < self.slots.len() && self.slots[e.id].alive && self.slots[e.id].generation
            == e.generation {
            self.slots[e.id].comps.name.as_ref()
        } else {
            None
        }
    }
}

} // verus!
