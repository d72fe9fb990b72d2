//! Collision layers, circle colliders, and the collision-detection pass.
//!
//! Collision is layer-directional: entity A reacts to entity B when
//! `A.collides_with` intersects `B.layer`. Each ordered pair is evaluated
//! on its own, so the two directions of one contact are independent.

use vstd::prelude::*;

use crate::components::DamageEvent;
use crate::components::HealthV;
use crate::components::Position;
use crate::vec2::Vec2;
use crate::vec2::vec2_distance_squared;
use crate::world::BundleV;
use crate::world::Entity;
use crate::world::SlotV;
use crate::world::World;
use crate::world::WorldV;

verus! {

/// A combat affiliation an entity can carry or react to.
#[derive(Debug, Copy, Clone, PartialEq, Eq, Structural)]
pub enum Layers {
    Player,
    Enemy,
}

/// The bit a layer occupies inside a mask.
pub open spec fn layer_bit(tag: Layers) -> usize {
    match tag {
        Layers::Player => 0x01usize,
        Layers::Enemy => 0x02usize,
    }
}

/// A bitset of layers.
#[derive(Debug, Copy, Clone, PartialEq, Eq, Structural)]
pub struct LayerMask {
    pub bitmask: usize,
}

impl LayerMask {
    pub fn new(bitmask: usize) -> (r: Self)
        ensures
            r.bitmask == bitmask,
    {
        LayerMask { bitmask }
    }

    pub fn from_enum(tag: Layers) -> (r: Self)
        ensures
            r.bitmask == layer_bit(tag),
    {
        match tag {
            Layers::Player => LayerMask { bitmask: 0x01 },
            Layers::Enemy => LayerMask { bitmask: 0x02 },
        }
    }

    /// Do the two masks share any layer?
    pub fn any(&self, other: &LayerMask) -> (r: bool)
        ensures
            r == mask_any(*self, *other),
    {
        self.bitmask & other.bitmask != 0x00
    }

    /// Does this mask contain every layer of `other`?
    pub fn is_superset(&self, other: &LayerMask) -> (r: bool)
        ensures
            r == (self.bitmask & other.bitmask == other.bitmask),
    {
        let both = self.bitmask & other.bitmask;
        both == other.bitmask
    }

    /// Are the two masks the same set of layers?
    pub fn all(&self, other: &LayerMask) -> (r: bool)
        ensures
            r == (self.bitmask == other.bitmask),
    {
        self.bitmask == other.bitmask
    }
}

/// Whether two masks share a layer.
pub open spec fn mask_any(a: LayerMask, b: LayerMask) -> bool {
    a.bitmask & b.bitmask != 0usize
}

/// What an entity is, what it reacts to, and how big it is.
/// The radius is in milliunits and is never negative.
#[derive(Debug, Copy, Clone, PartialEq, Eq, Structural)]
pub struct CircleCollider {
    pub radius: u32,
    pub layer: LayerMask,
    pub collides_with: LayerMask,
}

/// Whether two circles overlap: squared centre distance strictly below the
/// squared radius sum. The squared comparison avoids a square root.
pub open spec fn circles_overlap(pos_a: Vec2, ra: u32, pos_b: Vec2, rb: u32) -> bool {
    vec2_distance_squared(pos_a, pos_b) < (ra + rb) * (ra + rb)
}

/// Decides overlap of two positioned circle colliders.
pub fn circle_collision(
    pos_a: &Position,
    cir_a: &CircleCollider,
    pos_b: &Position,
    cir_b: &CircleCollider,
) -> (r: bool)
    ensures
        r == circles_overlap(pos_a.position, cir_a.radius, pos_b.position, cir_b.radius),
{
    let dist2 = Vec2::distance_squared(pos_a.position, pos_b.position);
    let rsum = cir_a.radius as i128 + cir_b.radius as i128;
    proof {
        crate::vec2::lemma_mul_bounds(rsum as int, rsum as int, 0x2_0000_0000, 0x2_0000_0000);
    }
    dist2 < rsum * rsum
}

/// Whether a slot takes part in collision detection: live, positioned,
/// and carrying a collider.
pub open spec fn collider_ready(s: SlotV) -> bool {
    s.alive && s.comps.position is Some && s.comps.collider is Some
}

/// Whether the scan records the ordered pair: both slots take part, the
/// first reacts to the second's layer, and the circles overlap. The two
/// directions of one contact are evaluated independently.
pub open spec fn pair_collides(a: SlotV, b: SlotV) -> bool {
    collider_ready(a) && collider_ready(b) && match (
        a.comps.position,
        a.comps.collider,
        b.comps.position,
        b.comps.collider,
    ) {
        (Some(pa), Some(ca), Some(pb), Some(cb)) => mask_any(ca.collides_with, cb.layer)
            && circles_overlap(pa.position, ca.radius, pb.position, cb.radius),
        _ => false,
    }
}

/// The ordered pairs `(a, b)` the scan records for outer slot `a` against
/// inner slots below `m`, in inner-slot order.
pub open spec fn inner_pairs(slots: Seq<SlotV>, a: int, m: int) -> Seq<(int, int)>
    decreases m,
{
    if m <= 0 {
        Seq::empty()
    } else {
        inner_pairs(slots, a, m - 1) + if m - 1 != a && pair_collides(slots[a], slots[m - 1]) {
            seq![(a, m - 1)]
        } else {
            Seq::empty()
        }
    }
}

/// The ordered pairs the scan records for outer slots below `n`.
pub open spec fn outer_pairs(slots: Seq<SlotV>, n: int) -> Seq<(int, int)>
    decreases n,
{
    if n <= 0 {
        Seq::empty()
    } else {
        outer_pairs(slots, n - 1) + inner_pairs(slots, n - 1, slots.len() as int)
    }
}

/// Every ordered colliding pair, outer slot ascending, inner slot
/// ascending within it.
pub open spec fn collision_pairs(slots: Seq<SlotV>) -> Seq<(int, int)> {
    outer_pairs(slots, slots.len() as int)
}

/// Consuming one recorded pair `(a, b)`: when `b` holds health and a
/// position and `a` deals damage, a damage event with `a`'s damage amount
/// and `b`'s own position is queued on `b`'s health; a missing component
/// on either side skips the pair without effect.
pub open spec fn apply_pair(w: WorldV, a: int, b: int) -> WorldV {
    if 0 <= a < w.slots.len() && 0 <= b < w.slots.len() {
        let sa = w.slots[a];
        let sb = w.slots[b];
        match (sb.comps.health, sa.comps.damage, sb.comps.position) {
            (Some(h), Some(d), Some(p)) => WorldV {
                slots: w.slots.update(
                    b,
                    SlotV {
                        comps: BundleV {
                            health: Some(
                                HealthV {
                                    damage_events: h.damage_events.push(
                                        DamageEvent::DamageTaken(d.damage, p.position),
                                    ),
                                    ..h
                                },
                            ),
                            ..sb.comps
                        },
                        ..sb
                    },
                ),
                ..w
            },
            _ => w,
        }
    } else {
        w
    }
}

/// Consuming a queue of recorded pairs in order.
pub open spec fn apply_pairs(w: WorldV, pairs: Seq<(int, int)>) -> WorldV
    decreases pairs.len(),
{
    if pairs.len() == 0 {
        w
    } else {
        apply_pair(apply_pairs(w, pairs.drop_last()), pairs.last().0, pairs.last().1)
    }
}

/// The whole collision pass: scan every ordered pair, then consume the
/// recorded pairs in order.
pub open spec fn collision_pass(w: WorldV) -> WorldV {
    apply_pairs(w, collision_pairs(w.slots))
}

/// Consuming pairs only appends damage events: it never changes slot
/// count, liveness, generations, positions, colliders, damage values, or
/// which slots hold health, and it leaves the queues alone.
pub proof fn lemma_apply_pairs_frame(w: WorldV, pairs: Seq<(int, int)>)
    ensures
        apply_pairs(w, pairs).slots.len() == w.slots.len(),
        forall|i: int|
            0 <= i < w.slots.len() ==> {
                let s2 = #[trigger] apply_pairs(w, pairs).slots[i];
                let s = w.slots[i];
                &&& s2.alive == s.alive
                &&& s2.generation == s.generation
                &&& s2.comps.position == s.comps.position
                &&& s2.comps.collider == s.comps.collider
                &&& s2.comps.damage == s.comps.damage
                &&& (s2.comps.health is Some <==> s.comps.health is Some)
            },
        apply_pairs(w, pairs).pending_spawns == w.pending_spawns,
        apply_pairs(w, pairs).pending_deletes == w.pending_deletes,
    decreases pairs.len(),
{
    if pairs.len() == 0 {
    } else {
        lemma_apply_pairs_frame(w, pairs.drop_last());
    }
}

/// The identifier pairs of a recorded entity-pair queue.
pub open spec fn pair_ids(cs: Seq<(Entity, Entity)>) -> Seq<(int, int)> {
    cs.map_values(|c: (Entity, Entity)| (c.0.id as int, c.1.id as int))
}

/// Decides whether the scan records the ordered pair of slots.
fn check_pair(world: &World, a: usize, b: usize) -> (r: bool)
    requires
        a < world@.slots.len(),
        b < world@.slots.len(),
    ensures
        r == (a != b && pair_collides(world@.slots[a as int], world@.slots[b as int])),
{
    if a == b {
        return false;
    }
    let sa = &world.slots[a];
    let sb = &world.slots[b];
    if !sa.alive || !sb.alive {
        return false;
    }
    match (&sa.comps.position, &sa.comps.collider, &sb.comps.position, &sb.comps.collider) {
        (Some(pa), Some(ca), Some(pb), Some(cb)) => {
            ca.collides_with.any(&cb.layer) && circle_collision(pa, ca, pb, cb)
        },
        _ => false,
    }
}

/// The collision-detection pass. The accumulator collects the ordered
/// pairs of the scan and is drained and cleared by every run.
pub struct CollisionSystem {
    pub collisions: Vec<(Entity, Entity)>,
}

impl CollisionSystem {
    pub fn new() -> (r: Self)
        ensures
            r.collisions@.len() == 0,
    {
        Self { collisions: Vec::new() }
    }

    pub fn run(&mut self, world: &mut World)
        ensures
            final(world)@ == collision_pass(old(world)@),
            final(self).collisions@.len() == 0,
    {
        let ghost w0 = world@;
        self.collisions = Vec::new();
        let n = world.slots.len();
        proof {
            assert(pair_ids(self.collisions@) =~= outer_pairs(w0.slots, 0));
        }
        let mut a: usize = 0;
        while a < n
            invariant
                a <= n,
                n == world.slots@.len(),
                world@ == w0,
                pair_ids(self.collisions@) == outer_pairs(w0.slots, a as int),
                forall|k: int|
                    0 <= k < self.collisions@.len() ==> {
                        let c = #[trigger] self.collisions@[k];
                        &&& crate::world::slot_live(w0.slots, c.0)
                        &&& crate::world::slot_live(w0.slots, c.1)
                    },
            decreases n - a,
        {
            let mut b: usize = 0;
            while b < n
                invariant
                    a < n,
                    b <= n,
                    n == world.slots@.len(),
                    world@ == w0,
                    pair_ids(self.collisions@) == outer_pairs(w0.slots, a as int) + inner_pairs(
                        w0.slots,
                        a as int,
                        b as int,
                    ),
                    forall|k: int|
                        0 <= k < self.collisions@.len() ==> {
                            let c = #[trigger] self.collisions@[k];
                            &&& crate::world::slot_live(w0.slots, c.0)
                            &&& crate::world::slot_live(w0.slots, c.1)
                        },
                decreases n - b,
            {
                let ghost cols0 = self.collisions@;
                if check_pair(world, a, b) {
                    let ga = world.slots[a].generation;
                    let gb = world.slots[b].generation;
                    self.collisions.push(
                        (Entity { id: a, generation: ga }, Entity { id: b, generation: gb }),
                    );
                    proof {
                        assert(pair_ids(self.collisions@) =~= pair_ids(cols0) + seq![
                            (a as int, b as int),
                        ]);
                    }
                }
                proof {
                    assert(inner_pairs(w0.slots, a as int, b as int + 1) == inner_pairs(
                        w0.slots,
                        a as int,
                        b as int,
                    ) + if b != a && pair_collides(w0.slots[a as int], w0.slots[b as int]) {
                        seq![(a as int, b as int)]
                    } else {
                        Seq::empty()
                    });
                    assert(pair_ids(self.collisions@) =~= outer_pairs(w0.slots, a as int)
                        + inner_pairs(w0.slots, a as int, b as int + 1));
                }
                b = b + 1;
            }
            proof {
                assert(outer_pairs(w0.slots, a as int + 1) == outer_pairs(w0.slots, a as int)
                    + inner_pairs(w0.slots, a as int, w0.slots.len() as int));
            }
            a = a + 1;
        }
        let ghost pairs = collision_pairs(w0.slots);
        proof {
            assert(pair_ids(self.collisions@) == pairs);
        }
        let mut k: usize = 0;
        while k < self.collisions.len()
            invariant
                k <= self.collisions@.len(),
                pair_ids(self.collisions@) == pairs,
                pairs == collision_pairs(w0.slots),
                world@ == apply_pairs(w0, pairs.subrange(0, k as int)),
                forall|j: int|
                    0 <= j < self.collisions@.len() ==> {
                        let c = #[trigger] self.collisions@[j];
                        &&& crate::world::slot_live(w0.slots, c.0)
                        &&& crate::world::slot_live(w0.slots, c.1)
                    },
            decreases self.collisions@.len() - k,
        {
            let ghost pre = world@;
            let pair = self.collisions[k];
            let ea = pair.0;
            let eb = pair.1;
            proof {
                lemma_apply_pairs_frame(w0, pairs.subrange(0, k as int));
            }
            if eb.id < world.slots.len() && world.slots[eb.id].alive && world.slots[eb.id].generation
                == eb.generation {
                let source_damage = if ea.id < world.slots.len() && world.slots[ea.id].alive
                    && world.slots[ea.id].generation == ea.generation {
                    world.slots[ea.id].comps.damage
                } else {
                    None
                };
                let damage_position = world.slots[eb.id].comps.position;
                match (source_damage, damage_position) {
                    (Some(d), Some(p)) => {
                        let slot = &mut world.slots[eb.id];
                        match &mut slot.comps.health {
                            Some(h) => {
                                h.damage_events.push(
                                    DamageEvent::DamageTaken(d.damage, p.position),
                                );
                            },
                            None => {},
                        }
                    },
                    _ => {},
                }
            }
            proof {
                assert(pairs.subrange(0, k as int + 1).drop_last() =~= pairs.subrange(0, k as int));
                assert(pairs.subrange(0, k as int + 1).last() == pairs[k as int]);
                assert(world@ =~~= apply_pair(pre, ea.id as int, eb.id as int));
                assert(world@ =~~= apply_pairs(w0, pairs.subrange(0, k as int + 1)));
            }
            k = k + 1;
        }
        self.collisions = Vec::new();
        proof {
            assert(pairs.subrange(0, pairs.len() as int) =~= pairs);
            assert(world@ =~~= collision_pass(w0));
        }
    }
}

} // verus!
