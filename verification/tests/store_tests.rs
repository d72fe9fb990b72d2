use shooter_core::components::Damage;
use shooter_core::components::Health;
use shooter_core::components::DeathEffect;
use shooter_core::components::Position;
use shooter_core::world::Bundle;
use shooter_core::world::World;

#[test]
fn spawn_and_get_roundtrip() {
    let mut w = World::new();
    let mut b = Bundle::empty();
    b.position = Some(Position::new(3, 4));
    b.damage = Some(Damage::new(7));
    let e = w.spawn_now(b);
    assert!(w.is_live(e));
    let p = w.get_position(e).unwrap();
    assert_eq!(p.x(), 3);
    assert_eq!(p.y(), 4);
    assert_eq!(w.get_damage(e).unwrap().damage, 7);
    assert!(w.get_weapon(e).is_none());
}

#[test]
fn insert_and_remove_immediate() {
    let mut w = World::new();
    let e = w.create();
    assert!(w.get_position(e).is_none());
    w.insert_position(e, Position::new(1, 2));
    assert_eq!(w.get_position(e).unwrap().x(), 1);
    w.remove_position(e);
    assert!(w.get_position(e).is_none());
}

#[test]
fn stale_handle_reads_absent() {
    let mut w = World::new();
    let mut b = Bundle::empty();
    b.position = Some(Position::new(9, 9));
    let e = w.spawn_now(b);
    w.delete(e);
    // deletion is deferred: still visible before the commit
    assert!(w.is_live(e));
    w.maintain();
    assert!(!w.is_live(e));
    assert!(w.get_position(e).is_none());
    // inserting through the stale handle is a silent no-op
    w.insert_position(e, Position::new(1, 1));
    assert!(w.get_position(e).is_none());
}

#[test]
fn delete_twice_equals_delete_once() {
    let build = || {
        let mut w = World::new();
        let mut b = Bundle::empty();
        b.position = Some(Position::new(5, 5));
        let keep = w.spawn_now(Bundle::empty());
        let gone = w.spawn_now(b);
        (w, keep, gone)
    };
    let (mut w1, keep1, gone1) = build();
    w1.delete(gone1);
    w1.maintain();
    let (mut w2, keep2, gone2) = build();
    w2.delete(gone2);
    w2.delete(gone2);
    w2.maintain();
    assert_eq!(keep1, keep2);
    assert_eq!(gone1, gone2);
    assert!(w1.is_live(keep1) && w2.is_live(keep2));
    assert!(!w1.is_live(gone1) && !w2.is_live(gone2));
    assert_eq!(w1.slot_count(), w2.slot_count());
    // the next allocation lands in the same slot with the same generation
    let n1 = w1.create();
    let n2 = w2.create();
    assert_eq!(n1, n2);
}

#[test]
fn deleting_a_dead_handle_is_a_no_op() {
    let mut w = World::new();
    let e = w.spawn_now(Bundle::empty());
    w.delete(e);
    w.maintain();
    w.delete(e);
    w.maintain();
    assert!(!w.is_live(e));
    assert_eq!(w.slot_count(), 1);
}

#[test]
fn slot_reuse_bumps_generation() {
    let mut w = World::new();
    let e1 = w.spawn_now(Bundle::empty());
    w.delete(e1);
    w.maintain();
    let e2 = w.create();
    assert_eq!(e1.id, e2.id);
    assert_ne!(e1.generation, e2.generation);
    assert!(!w.is_live(e1));
    assert!(w.is_live(e2));
}

#[test]
fn deferred_spawn_invisible_until_commit() {
    let mut w = World::new();
    let existing = w.spawn_now(Bundle::empty());
    let mut b = Bundle::empty();
    b.position = Some(Position::new(42, 43));
    b.health = Some(Health::new(5, DeathEffect::NoEffect));
    w.queue_spawn(b);
    // nothing visible this frame
    assert_eq!(w.slot_count(), 1);
    assert!(w.is_live(existing));
    w.maintain();
    // visible at the start of the next frame, fully populated
    assert_eq!(w.slot_count(), 2);
    let slot = &w.slots[1];
    assert!(slot.alive);
    assert_eq!(slot.comps.position.unwrap().x(), 42);
    assert_eq!(slot.comps.health.as_ref().unwrap().health, 5);
}

#[test]
fn commit_applies_creations_before_deletions() {
    let mut w = World::new();
    let victim = w.spawn_now(Bundle::empty());
    // the queued creation must not reuse the victim's slot: the victim is
    // still alive when creations are realized
    w.delete(victim);
    w.queue_spawn(Bundle::empty());
    w.maintain();
    assert_eq!(w.slot_count(), 2);
    assert!(!w.is_live(victim));
    assert!(w.slots[1].alive);
}
