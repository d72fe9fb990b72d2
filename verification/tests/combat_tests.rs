use shooter_core::collision::CircleCollider;
use shooter_core::collision::CollisionSystem;
use shooter_core::collision::LayerMask;
use shooter_core::collision::Layers;
use shooter_core::components::Damage;
use shooter_core::components::DamageEvent;
use shooter_core::components::DeathEffect;
use shooter_core::components::Health;
use shooter_core::components::Position;
use shooter_core::systems::HealthSystem;
use shooter_core::systems::SCATTER_SPREAD;
use shooter_core::vec2::Vec2;
use shooter_core::world::Bundle;
use shooter_core::world::World;

fn health_bundle(health: u32, on_death: DeathEffect) -> Bundle {
    let mut b = Bundle::empty();
    b.position = Some(Position::new(0, 0));
    b.health = Some(Health::new(health, on_death));
    b
}

#[test]
fn health_clamps_at_zero_with_one_death() {
    let mut w = World::new();
    let e = w.spawn_now(health_bundle(10, DeathEffect::SpawnExplosion { size: 32 }));
    {
        let h = w.slots[e.id].comps.health.as_mut().unwrap();
        h.apply_damage(&Damage::new(4), Vec2 { x: 1, y: 1 });
        h.apply_damage(&Damage::new(9), Vec2 { x: 2, y: 2 });
    }
    let mut sys = HealthSystem;
    sys.run(&mut w);
    let h = w.slots[e.id].comps.health.as_ref().unwrap();
    assert_eq!(h.health, 0);
    assert!(h.damage_events.is_empty());
    // exactly one death: one queued deletion, one queued effect spawn
    assert_eq!(w.pending_deletes.len(), 1);
    assert_eq!(w.pending_deletes[0], e);
    assert_eq!(w.pending_spawns.len(), 1);
}

#[test]
fn lethal_event_ordering_fires_once_at_second_event() {
    let mut w = World::new();
    let e = w.spawn_now(health_bundle(8, DeathEffect::SpawnExplosion { size: 32 }));
    {
        let h = w.slots[e.id].comps.health.as_mut().unwrap();
        h.apply_damage(&Damage::new(5), Vec2 { x: 100, y: 100 });
        h.apply_damage(&Damage::new(5), Vec2 { x: 7_000_000, y: -7_000_000 });
        // an extra queued event after the lethal one is discarded
        h.apply_damage(&Damage::new(5), Vec2 { x: 900, y: 900 });
    }
    let mut sys = HealthSystem;
    sys.run(&mut w);
    let h = w.slots[e.id].comps.health.as_ref().unwrap();
    assert_eq!(h.health, 0);
    assert_eq!(w.pending_deletes.len(), 1);
    assert_eq!(w.pending_spawns.len(), 1);
    // the explosion scatters around the impact position of the lethal
    // (second) event, within the scatter spread on each axis
    let p = w.pending_spawns[0].position.unwrap();
    assert!((p.x() - 7_000_000).abs() <= SCATTER_SPREAD);
    assert!((p.y() + 7_000_000).abs() <= SCATTER_SPREAD);
}

#[test]
fn sublethal_damage_subtracts_and_clears_events() {
    let mut w = World::new();
    let e = w.spawn_now(health_bundle(10, DeathEffect::SpawnExplosion { size: 32 }));
    {
        let h = w.slots[e.id].comps.health.as_mut().unwrap();
        h.apply_damage(&Damage::new(3), Vec2 { x: 0, y: 0 });
    }
    let mut sys = HealthSystem;
    sys.run(&mut w);
    let h = w.slots[e.id].comps.health.as_ref().unwrap();
    assert_eq!(h.health, 7);
    assert!(h.damage_events.is_empty());
    assert!(w.pending_deletes.is_empty());
    assert!(w.pending_spawns.is_empty());
}

#[test]
fn death_without_effect_spawns_nothing() {
    let mut w = World::new();
    let e = w.spawn_now(health_bundle(1, DeathEffect::NoEffect));
    {
        let h = w.slots[e.id].comps.health.as_mut().unwrap();
        h.apply_damage(&Damage::new(1), Vec2 { x: 0, y: 0 });
    }
    let mut sys = HealthSystem;
    sys.run(&mut w);
    assert_eq!(w.pending_deletes.len(), 1);
    assert!(w.pending_spawns.is_empty());
}

fn collider(layer: Layers, reacts_to: Layers) -> CircleCollider {
    CircleCollider {
        radius: 10_000,
        layer: LayerMask::from_enum(layer),
        collides_with: LayerMask::from_enum(reacts_to),
    }
}

fn combatant(x: i32, layer: Layers, reacts_to: Layers, damage: Option<u32>) -> Bundle {
    let mut b = Bundle::empty();
    b.position = Some(Position::new(x, 0));
    b.collider = Some(collider(layer, reacts_to));
    b.health = Some(Health::new(100, DeathEffect::NoEffect));
    b.damage = damage.map(Damage::new);
    b
}

#[test]
fn collision_directions_are_independent() {
    let mut w = World::new();
    // overlapping circles: centres 5 apart, radius sum 20_000
    let a = w.spawn_now(combatant(0, Layers::Enemy, Layers::Player, Some(5)));
    let b = w.spawn_now(combatant(5, Layers::Player, Layers::Enemy, None));
    let mut sys = CollisionSystem::new();
    sys.run(&mut w);
    // direction a -> b delivers a's damage at b's own position
    let hb = w.slots[b.id].comps.health.as_ref().unwrap();
    assert_eq!(hb.damage_events.len(), 1);
    match hb.damage_events[0] {
        DamageEvent::DamageTaken(amount, at) => {
            assert_eq!(amount, 5);
            assert_eq!(at, Vec2 { x: 5, y: 0 });
        }
    }
    // direction b -> a delivers nothing: b has no damage component
    let ha = w.slots[a.id].comps.health.as_ref().unwrap();
    assert!(ha.damage_events.is_empty());
    // the accumulator is cleared after the run
    assert!(sys.collisions.is_empty());
}

#[test]
fn collision_both_directions_deliver_when_both_deal_damage() {
    let mut w = World::new();
    let a = w.spawn_now(combatant(0, Layers::Enemy, Layers::Player, Some(5)));
    let b = w.spawn_now(combatant(5, Layers::Player, Layers::Enemy, Some(3)));
    let mut sys = CollisionSystem::new();
    sys.run(&mut w);
    let ha = w.slots[a.id].comps.health.as_ref().unwrap();
    let hb = w.slots[b.id].comps.health.as_ref().unwrap();
    assert_eq!(hb.damage_events.len(), 1);
    assert_eq!(ha.damage_events.len(), 1);
    match ha.damage_events[0] {
        DamageEvent::DamageTaken(amount, _) => assert_eq!(amount, 3),
    }
}

#[test]
fn collision_respects_layer_masks() {
    let mut w = World::new();
    // both on the same layer, each reacting only to the other layer: no pair
    let a = w.spawn_now(combatant(0, Layers::Enemy, Layers::Player, Some(5)));
    let b = w.spawn_now(combatant(5, Layers::Enemy, Layers::Player, Some(5)));
    let mut sys = CollisionSystem::new();
    sys.run(&mut w);
    assert!(w.slots[a.id].comps.health.as_ref().unwrap().damage_events.is_empty());
    assert!(w.slots[b.id].comps.health.as_ref().unwrap().damage_events.is_empty());
}

#[test]
fn collision_needs_overlap() {
    let mut w = World::new();
    // centres 30_000 apart, radius sum 20_000: no contact
    let a = w.spawn_now(combatant(0, Layers::Enemy, Layers::Player, Some(5)));
    let b = w.spawn_now(combatant(30_000, Layers::Player, Layers::Enemy, Some(5)));
    let mut sys = CollisionSystem::new();
    sys.run(&mut w);
    assert!(w.slots[a.id].comps.health.as_ref().unwrap().damage_events.is_empty());
    assert!(w.slots[b.id].comps.health.as_ref().unwrap().damage_events.is_empty());
}

#[test]
fn collision_without_components_is_silent() {
    let mut w = World::new();
    // the target has no health: the pair is recorded but consuming it
    // applies nothing and nothing crashes
    let a = w.spawn_now(combatant(0, Layers::Enemy, Layers::Player, Some(5)));
    let mut b = Bundle::empty();
    b.position = Some(Position::new(5, 0));
    b.collider = Some(collider(Layers::Player, Layers::Enemy));
    let t = w.spawn_now(b);
    let mut sys = CollisionSystem::new();
    sys.run(&mut w);
    assert!(w.slots[t.id].comps.health.is_none());
    assert!(w.slots[a.id].comps.health.as_ref().unwrap().damage_events.is_empty());
}
