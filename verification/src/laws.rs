//! The laws the simulation keeps, stated over the pass and store
//! specifications and proved once and for all.

use vstd::prelude::*;

use crate::components::DamageEvent;
use crate::components::health_wf;
use crate::enemy::Direction;
use crate::enemy::Enemy;
use crate::enemy::EnemyMoveState;
use crate::enemy::direction_next;
use crate::enemy::enemy_move_step;
use crate::collision::collision_pass;
use crate::collision::pair_collides;
use crate::collision::inner_pairs;
use crate::collision::outer_pairs;
use crate::collision::collision_pairs;
use crate::collision::apply_pair;
use crate::collision::apply_pairs;
use crate::systems::drain_events;
use crate::systems::health_slot;
use crate::systems::lifetime_expires;
use crate::systems::lifetime_deletes;
use crate::systems::health_dies;
use crate::systems::health_deletes;
use crate::vec2::Vec2;
use crate::weapon::Weapon;
use crate::weapon::WeaponFireCommand;
use crate::weapon::weapon_shoots;
use crate::weapon::weapon_transition;
use crate::world::BundleV;
use crate::world::Entity;
use crate::world::SlotV;
use crate::world::WorldV;
use crate::world::apply_deletes;
use crate::world::apply_spawns;
use crate::world::delete_slots;
use crate::world::first_free;
use crate::world::lemma_first_free_in_range;
use crate::world::live;
use crate::world::maintain_spec;
use crate::world::slot_live;
use crate::world::spawn_slots;

verus! {

/// Marking the same entity for removal twice in one frame, then
/// committing, leaves the store exactly as marking it once does.
pub proof fn lemma_delete_idempotent(w: WorldV, e: Entity)
    ensures
        maintain_spec(WorldV { pending_deletes: w.pending_deletes.push(e).push(e), ..w })
            == maintain_spec(WorldV { pending_deletes: w.pending_deletes.push(e), ..w }),
{
    let s = apply_spawns(w.slots, w.pending_spawns);
    let d1 = w.pending_deletes.push(e);
    let d2 = d1.push(e);
    assert(d2.drop_last() =~= d1);
    let s1 = apply_deletes(s, d1);
    assert(apply_deletes(s, d2) == delete_slots(s1, e));
    let s0 = apply_deletes(s, w.pending_deletes);
    assert(d1.drop_last() =~= w.pending_deletes);
    assert(s1 == delete_slots(s0, e));
    // after the first application the slot is dead or the handle stale,
    // so the second application changes nothing
    assert(!slot_live(s1, e));
    assert(delete_slots(s1, e) =~= s1);
    assert(maintain_spec(WorldV { pending_deletes: d2, ..w }) =~~= maintain_spec(
        WorldV { pending_deletes: d1, ..w },
    ));
}

/// Realizing creations never disturbs an existing slot that is alive, and
/// only revives dead ones: every original slot is either untouched or
/// alive afterwards, and the vector grows by at most one slot per
/// creation.
pub proof fn lemma_apply_spawns_frame(s: Seq<SlotV>, bs: Seq<BundleV>)
    ensures
        s.len() <= apply_spawns(s, bs).len() <= s.len() + bs.len(),
        forall|i: int|
            0 <= i < s.len() ==> (#[trigger] apply_spawns(s, bs)[i] == s[i] || apply_spawns(
                s,
                bs,
            )[i].alive),
        forall|i: int|
            0 <= i < s.len() && s[i].alive ==> #[trigger] apply_spawns(s, bs)[i] == s[i],
    decreases bs.len(),
{
    if bs.len() == 0 {
    } else {
        lemma_apply_spawns_frame(s, bs.drop_last());
        lemma_first_free_in_range(apply_spawns(s, bs.drop_last()));
    }
}

/// A slot no queued deletion matches stays exactly as it is through the
/// whole deletion queue.
pub proof fn lemma_apply_deletes_keeps(s: Seq<SlotV>, ds: Seq<Entity>, id: int)
    requires
        0 <= id < s.len(),
        forall|j: int|
            0 <= j < ds.len() ==> !((#[trigger] ds[j]).id == id && ds[j].generation
                == s[id].generation),
    ensures
        apply_deletes(s, ds).len() == s.len(),
        apply_deletes(s, ds)[id] == s[id],
    decreases ds.len(),
{
    if ds.len() == 0 {
    } else {
        assert(forall|j: int| 0 <= j < ds.len() - 1 ==> ds.drop_last()[j] == ds[j]);
        lemma_apply_deletes_keeps(s, ds.drop_last(), id);
        assert(ds.last() == ds[ds.len() - 1]);
    }
}

/// The store after queuing one more creation and committing the frame.
pub open spec fn committed_with(w: WorldV, b: BundleV) -> WorldV {
    maintain_spec(WorldV { pending_spawns: w.pending_spawns.push(b), ..w })
}

/// Deferred visibility. Queuing a creation changes no slot, so no read of
/// this frame can see the new entity; after the commit, provided every
/// queued deletion names an entity that is live now (as the passes'
/// deletions do), the new entity exists, is live, and carries exactly the
/// queued components.
pub proof fn lemma_deferred_visibility(w: WorldV, b: BundleV)
    requires
        w.slots.len() + w.pending_spawns.len() < usize::MAX,
        forall|j: int| 0 <= j < w.pending_deletes.len() ==> live(w, #[trigger] w.pending_deletes[j]),
    ensures
        (WorldV { pending_spawns: w.pending_spawns.push(b), ..w }).slots == w.slots,
        exists|e: Entity|
            #[trigger] live(committed_with(w, b), e) && committed_with(w, b).slots[e.id as int].comps
                == b,
{
    let w1 = WorldV { pending_spawns: w.pending_spawns.push(b), ..w };
    let s1 = apply_spawns(w.slots, w.pending_spawns);
    assert(w1.pending_spawns.drop_last() =~= w.pending_spawns);
    assert(apply_spawns(w.slots, w1.pending_spawns) == spawn_slots(s1, b));
    lemma_apply_spawns_frame(w.slots, w.pending_spawns);
    lemma_first_free_in_range(s1);
    let id = first_free(s1);
    let s2 = spawn_slots(s1, b);
    let g = s2[id].generation;
    let e = Entity { id: id as usize, generation: g };
    assert(s2[id].alive && s2[id].comps == b);
    // no queued deletion can name the spawn's slot: a reused slot was dead
    // before the frame, and a fresh slot did not exist
    assert(forall|j: int|
        0 <= j < w1.pending_deletes.len() ==> !((#[trigger] w1.pending_deletes[j]).id == id
            && w1.pending_deletes[j].generation == s2[id].generation)) by {
        if id < w.slots.len() {
            assert(!s1[id].alive);
            assert(!w.slots[id].alive);
        }
    }
    lemma_apply_deletes_keeps(s2, w1.pending_deletes, id);
    let m = committed_with(w, b);
    assert(m.slots[id] == s2[id]);
    assert(live(m, e) && m.slots[e.id as int].comps == b);
}

/// The damage/death pass queues deletions only for entities live when it
/// ran, so [`lemma_deferred_visibility`]'s hypothesis holds of its queue.
pub proof fn lemma_health_deletes_live(slots: Seq<SlotV>)
    requires
        slots.len() <= usize::MAX,
    ensures
        forall|j: int|
            0 <= j < health_deletes(slots).len() ==> slot_live(
                slots,
                #[trigger] health_deletes(slots)[j],
            ),
    decreases slots.len(),
{
    if slots.len() == 0 {
    } else {
        lemma_health_deletes_live(slots.drop_last());
        let prev = health_deletes(slots.drop_last());
        let cur = health_deletes(slots);
        assert forall|j: int| 0 <= j < cur.len() implies slot_live(slots, #[trigger] cur[j]) by {
            if j < prev.len() {
                assert(cur[j] == prev[j]);
                assert(slot_live(slots.drop_last(), prev[j]));
                assert(slots[prev[j].id as int] == slots.drop_last()[prev[j].id as int]);
            } else {
                assert(health_dies(slots.last()));
                assert(cur[j] == (Entity {
                    id: (slots.len() - 1) as usize,
                    generation: slots.last().generation,
                }));
            }
        }
    }
}

/// The housekeeping pass queues deletions only for entities live when it
/// ran, so [`lemma_deferred_visibility`]'s hypothesis holds of its queue.
pub proof fn lemma_lifetime_deletes_live(slots: Seq<SlotV>, dt: i32)
    requires
        slots.len() <= usize::MAX,
    ensures
        forall|j: int|
            0 <= j < lifetime_deletes(slots, dt).len() ==> slot_live(
                slots,
                #[trigger] lifetime_deletes(slots, dt)[j],
            ),
    decreases slots.len(),
{
    if slots.len() == 0 {
    } else {
        lemma_lifetime_deletes_live(slots.drop_last(), dt);
        let prev = lifetime_deletes(slots.drop_last(), dt);
        let cur = lifetime_deletes(slots, dt);
        assert forall|j: int| 0 <= j < cur.len() implies slot_live(slots, #[trigger] cur[j]) by {
            if j < prev.len() {
                assert(cur[j] == prev[j]);
                assert(slot_live(slots.drop_last(), prev[j]));
                assert(slots[prev[j].id as int] == slots.drop_last()[prev[j].id as int]);
            } else {
                assert(lifetime_expires(slots.last(), dt));
                assert(cur[j] == (Entity {
                    id: (slots.len() - 1) as usize,
                    generation: slots.last().generation,
                }));
            }
        }
    }
}

/// The sum of the amounts of a damage-event queue.
pub open spec fn sum_events(events: Seq<DamageEvent>) -> int
    decreases events.len(),
{
    if events.len() == 0 {
        0
    } else {
        match events.first() {
            DamageEvent::DamageTaken(amount, _) => amount + sum_events(events.drop_first()),
        }
    }
}

/// Damage amounts are never negative, so neither is their sum.
pub proof fn lemma_sum_nonneg(events: Seq<DamageEvent>)
    ensures
        sum_events(events) >= 0,
    decreases events.len(),
{
    if events.len() == 0 {
    } else {
        lemma_sum_nonneg(events.drop_first());
    }
}

/// Hit points clamp at zero. Draining a damage queue whose amounts sum to
/// at least the current hit points leaves exactly zero — never a negative
/// value — and reports exactly one death; a lesser queue subtracts its sum
/// and reports none.
pub proof fn lemma_health_clamps(health: u32, events: Seq<DamageEvent>)
    ensures
        drain_events(health, events).health >= 0,
        drain_events(health, events).health <= health,
        (events.len() > 0 && sum_events(events) >= health) <==> drain_events(
            health,
            events,
        ).death is Some,
        drain_events(health, events).death is Some ==> drain_events(health, events).health == 0,
        drain_events(health, events).death is None ==> drain_events(health, events).health
            == health - sum_events(events),
    decreases events.len(),
{
    if events.len() == 0 {
    } else {
        match events.first() {
            DamageEvent::DamageTaken(amount, _) => {
                lemma_sum_nonneg(events.drop_first());
                if amount >= health {
                } else {
                    lemma_health_clamps((health - amount) as u32, events.drop_first());
                }
            },
        }
    }
}

/// The health invariant survives the resolution pass: draining never
/// raises hit points, so current health stays at or below the maximum.
pub proof fn lemma_health_wf_preserved(s: SlotV)
    requires
        match s.comps.health {
            Some(h) => health_wf(h),
            None => true,
        },
    ensures
        match health_slot(s).comps.health {
            Some(h) => health_wf(h),
            None => true,
        },
{
    match s.comps.health {
        Some(h) => {
            if s.alive {
                lemma_health_clamps(h.health, h.damage_events);
            }
        },
        None => {},
    }
}

/// Death fires at most once: once the queue up to some point is lethal,
/// every event queued after it is ignored, so the outcome — including the
/// recorded impact position of the first lethal event — does not change.
pub proof fn lemma_extra_events_ignored(
    health: u32,
    events: Seq<DamageEvent>,
    extra: Seq<DamageEvent>,
)
    requires
        drain_events(health, events).death is Some,
    ensures
        drain_events(health, events + extra) == drain_events(health, events),
    decreases events.len(),
{
    assert(events.len() > 0);
    assert((events + extra).first() == events.first());
    match events.first() {
        DamageEvent::DamageTaken(amount, _) => {
            if amount >= health {
            } else {
                assert((events + extra).drop_first() =~= events.drop_first() + extra);
                lemma_extra_events_ignored((health - amount) as u32, events.drop_first(), extra);
            }
        },
    }
}

/// How many shots a fire command still owes.
pub open spec fn pending_shots(c: WeaponFireCommand) -> nat {
    match c {
        WeaponFireCommand::Waiting => 0nat,
        WeaponFireCommand::FireOnce => 1nat,
        WeaponFireCommand::FireAmount(n) => n as nat,
    }
}

/// A weapon run over a sequence of ticks: the final fire-control state
/// and how many shots were fired.
pub open spec fn run_weapon(w: Weapon, dts: Seq<i32>) -> (Weapon, nat)
    decreases dts.len(),
{
    if dts.len() == 0 {
        (w, 0nat)
    } else {
        let stepped = weapon_transition(w, dts.first());
        let fired: nat = if weapon_shoots(w, dts.first()) {
            1nat
        } else {
            0nat
        };
        let rest = run_weapon(stepped, dts.drop_first());
        (rest.0, (fired + rest.1) as nat)
    }
}

/// A weapon never fires more shots than its command owes, however many
/// ticks pass: a burst of `n` can never produce an `n+1`-th shot.
pub proof fn lemma_burst_bounded(w: Weapon, dts: Seq<i32>)
    ensures
        run_weapon(w, dts).1 <= pending_shots(w.command),
    decreases dts.len(),
{
    if dts.len() == 0 {
    } else {
        let stepped = weapon_transition(w, dts.first());
        lemma_burst_bounded(stepped, dts.drop_first());
        if weapon_shoots(w, dts.first()) {
            assert(pending_shots(stepped.command) + 1 <= pending_shots(w.command));
        } else {
            assert(pending_shots(stepped.command) <= pending_shots(w.command));
        }
    }
}

/// A waiting weapon stays waiting and never fires on its own.
pub proof fn lemma_waiting_stays(w: Weapon, dts: Seq<i32>)
    requires
        w.command is Waiting,
    ensures
        run_weapon(w, dts).1 == 0,
        run_weapon(w, dts).0.command is Waiting,
    decreases dts.len(),
{
    if dts.len() == 0 {
    } else {
        lemma_waiting_stays(weapon_transition(w, dts.first()), dts.drop_first());
    }
}

/// A burst is exact. With the cooldown spent, a command of `n` shots, and
/// every tick at least the time between shots, the weapon fires exactly
/// one shot per tick for `n` ticks and then returns to waiting; by
/// [`lemma_waiting_stays`] the remaining ticks add nothing, so exactly
/// `n` shots are produced, never an `n+1`-th.
pub proof fn lemma_burst_exact(w: Weapon, dts: Seq<i32>, n: u32)
    requires
        w.command == WeaponFireCommand::FireAmount(n),
        n >= 1,
        0 <= w.time_between_shots,
        w.cooldown <= w.time_between_shots,
        n <= dts.len(),
        forall|k: int| 0 <= k < dts.len() ==> #[trigger] dts[k] >= w.time_between_shots,
    ensures
        run_weapon(w, dts).1 == n,
        run_weapon(w, dts).0.command is Waiting,
    decreases dts.len(),
{
    let stepped = weapon_transition(w, dts.first());
    assert(weapon_shoots(w, dts.first()));
    assert(forall|k: int|
        0 <= k < dts.drop_first().len() ==> #[trigger] dts.drop_first()[k]
            >= stepped.time_between_shots);
    if n == 1 {
        lemma_waiting_stays(stepped, dts.drop_first());
    } else {
        lemma_burst_exact(stepped, dts.drop_first(), (n - 1) as u32);
    }
}

/// The patrol cycle never skips a direction: four cyclic steps return to
/// the start, and one movement step keeps the direction or advances it
/// exactly one place in the order right, down, left, up. An idle enemy
/// always starts rightward.
pub proof fn lemma_patrol_cycle(en: Enemy, pos: Vec2)
    ensures
        forall|d: Direction| #[trigger] direction_next(
            direction_next(direction_next(direction_next(d))),
        ) == d,
        ({
            let r = enemy_move_step(en, pos).0;
            match (en.move_state, r.move_state) {
                (EnemyMoveState::Idle, EnemyMoveState::Moving(d2, _)) => d2 == Direction::Right,
                (EnemyMoveState::Moving(d, _), EnemyMoveState::Moving(d2, _)) => d2 == d || d2
                    == direction_next(d),
                _ => false,
            }
        }),
{
    assert(forall|d: Direction| #[trigger] direction_next(
        direction_next(direction_next(direction_next(d))),
    ) == d) by {
        assert(direction_next(direction_next(direction_next(direction_next(Direction::Right))))
            == Direction::Right);
        assert(direction_next(direction_next(direction_next(direction_next(Direction::Down))))
            == Direction::Down);
        assert(direction_next(direction_next(direction_next(direction_next(Direction::Left))))
            == Direction::Left);
        assert(direction_next(direction_next(direction_next(direction_next(Direction::Up))))
            == Direction::Up);
    }
}

/// The scan records exactly the right pairs for one outer slot: `(a, b)`
/// with the inner slot below `m`, the two slots distinct, and the first
/// reacting to and overlapping the second.
pub proof fn lemma_inner_pairs_iff(slots: Seq<SlotV>, a: int, m: int, p: (int, int))
    requires
        0 <= m,
    ensures
        inner_pairs(slots, a, m).contains(p) <==> (p.0 == a && 0 <= p.1 < m && p.1 != a
            && pair_collides(slots[a], slots[p.1])),
    decreases m,
{
    if m <= 0 {
    } else {
        lemma_inner_pairs_iff(slots, a, m - 1, p);
        let prev = inner_pairs(slots, a, m - 1);
        let cur = inner_pairs(slots, a, m);
        let hit = m - 1 != a && pair_collides(slots[a], slots[m - 1]);
        if cur.contains(p) {
            let i = choose|i: int| 0 <= i < cur.len() && cur[i] == p;
            if i < prev.len() {
                assert(prev[i] == p);
                assert(prev.contains(p));
            } else {
                assert(hit && p == (a, m - 1));
            }
        }
        if p.0 == a && 0 <= p.1 < m && p.1 != a && pair_collides(slots[a], slots[p.1]) {
            if p.1 < m - 1 {
                assert(prev.contains(p));
                let i = choose|i: int| 0 <= i < prev.len() && prev[i] == p;
                assert(cur[i] == p);
                assert(cur.contains(p));
            } else {
                assert(cur[cur.len() - 1] == p);
                assert(cur.contains(p));
            }
        }
    }
}

/// The scan records exactly the right pairs for the outer slots below `n`.
pub proof fn lemma_outer_pairs_iff(slots: Seq<SlotV>, n: int, p: (int, int))
    requires
        0 <= n <= slots.len(),
    ensures
        outer_pairs(slots, n).contains(p) <==> (0 <= p.0 < n && 0 <= p.1 < slots.len() && p.1
            != p.0 && pair_collides(slots[p.0], slots[p.1])),
    decreases n,
{
    if n <= 0 {
    } else {
        lemma_outer_pairs_iff(slots, n - 1, p);
        lemma_inner_pairs_iff(slots, n - 1, slots.len() as int, p);
        let prev = outer_pairs(slots, n - 1);
        let tail = inner_pairs(slots, n - 1, slots.len() as int);
        let cur = outer_pairs(slots, n);
        if cur.contains(p) {
            let i = choose|i: int| 0 <= i < cur.len() && cur[i] == p;
            if i < prev.len() {
                assert(prev[i] == p);
                assert(prev.contains(p));
            } else {
                assert(tail[i - prev.len()] == p);
                assert(tail.contains(p));
            }
        }
        if 0 <= p.0 < n && 0 <= p.1 < slots.len() && p.1 != p.0 && pair_collides(
            slots[p.0],
            slots[p.1],
        ) {
            if p.0 < n - 1 {
                assert(prev.contains(p));
                let i = choose|i: int| 0 <= i < prev.len() && prev[i] == p;
                assert(cur[i] == p);
                assert(cur.contains(p));
            } else {
                assert(tail.contains(p));
                let j = choose|j: int| 0 <= j < tail.len() && tail[j] == p;
                assert(cur[prev.len() + j] == p);
                assert(cur.contains(p));
            }
        }
    }
}

/// The collision scan is sound and complete: it records an ordered pair
/// exactly when both slots take part, the slots are distinct, and the
/// first one's mask reacts to an overlap with the second. Each direction
/// of one contact is thus recorded, or not, entirely on its own.
pub proof fn lemma_collision_pairs_iff(slots: Seq<SlotV>, p: (int, int))
    ensures
        collision_pairs(slots).contains(p) <==> (0 <= p.0 < slots.len() && 0 <= p.1 < slots.len()
            && p.0 != p.1 && pair_collides(slots[p.0], slots[p.1])),
{
    lemma_outer_pairs_iff(slots, slots.len() as int, p);
}

/// Collision is directional and each direction is resolved independently.
/// For two mutually overlapping colliders where only the first deals
/// damage, the second's health gains exactly the first's damage event at
/// the second's own position, and the first's health gains nothing — the
/// second's missing damage suppresses only its own direction.
pub proof fn lemma_collision_directional(w: WorldV)
    requires
        w.slots.len() == 2,
        pair_collides(w.slots[0], w.slots[1]),
        pair_collides(w.slots[1], w.slots[0]),
        w.slots[0].comps.damage is Some,
        w.slots[1].comps.damage is None,
        w.slots[0].comps.health is Some,
        w.slots[1].comps.health is Some,
        w.pending_spawns.len() == 0,
        w.pending_deletes.len() == 0,
    ensures
        ({
            let r = collision_pass(w);
            match (
                w.slots[1].comps.health,
                w.slots[0].comps.damage,
                w.slots[1].comps.position,
                r.slots[1].comps.health,
            ) {
                (Some(h1), Some(d0), Some(p1), Some(h1r)) => h1r.damage_events
                    == h1.damage_events.push(DamageEvent::DamageTaken(d0.damage, p1.position)),
                _ => false,
            }
        }),
        ({
            let r = collision_pass(w);
            match (w.slots[0].comps.health, r.slots[0].comps.health) {
                (Some(h0), Some(h0r)) => h0r.damage_events == h0.damage_events,
                _ => false,
            }
        }),
{
    let s = w.slots;
    assert(inner_pairs(s, 0, 0) =~= Seq::<(int, int)>::empty());
    assert(inner_pairs(s, 0, 1) =~= Seq::<(int, int)>::empty());
    assert(inner_pairs(s, 0, 2) =~= seq![(0int, 1int)]);
    assert(inner_pairs(s, 1, 0) =~= Seq::<(int, int)>::empty());
    assert(inner_pairs(s, 1, 1) =~= seq![(1int, 0int)]);
    assert(inner_pairs(s, 1, 2) =~= seq![(1int, 0int)]);
    assert(outer_pairs(s, 0) =~= Seq::<(int, int)>::empty());
    assert(outer_pairs(s, 1) =~= seq![(0int, 1int)]);
    assert(outer_pairs(s, 2) =~= seq![(0int, 1int), (1int, 0int)]);
    let pr = collision_pairs(s);
    assert(pr =~= seq![(0int, 1int), (1int, 0int)]);
    assert(pr.drop_last() =~= seq![(0int, 1int)]);
    assert(pr.drop_last().drop_last() =~= Seq::<(int, int)>::empty());
    let wa = apply_pairs(w, pr.drop_last().drop_last());
    assert(wa == w);
    let wb = apply_pair(wa, 0, 1);
    assert(apply_pairs(w, pr.drop_last()) == wb);
    let wr = apply_pair(wb, 1, 0);
    assert(apply_pairs(w, pr) == wr);
    assert(collision_pass(w) == wr);
    // the second direction finds no damage on the second entity, so it
    // changes nothing
    assert(wb.slots[1].comps.damage is None);
    assert(wr == wb);
}

} // verus!
