use shooter_core::collision::LayerMask;
use shooter_core::collision::Layers;
use shooter_core::components::Health;
use shooter_core::components::DeathEffect;
use shooter_core::components::Name;
use shooter_core::player::PLAYER_HEALTH;
use shooter_core::player::PlayerRespawnSystem;
use shooter_core::vec2::Vec2;
use shooter_core::vec2::isqrt;
use shooter_core::world::Bundle;
use shooter_core::world::World;

#[test]
fn layer_masks_are_bitsets() {
    let player = LayerMask::from_enum(Layers::Player);
    let enemy = LayerMask::from_enum(Layers::Enemy);
    let both = LayerMask::new(player.bitmask | enemy.bitmask);
    assert!(player.any(&both));
    assert!(!player.any(&enemy));
    assert!(both.is_superset(&player));
    assert!(!player.is_superset(&both));
    assert!(player.all(&LayerMask::new(0x01)));
    assert!(!player.all(&enemy));
}

#[test]
fn health_constructors_fill_both_bars() {
    let h = Health::new(40, DeathEffect::SpawnExplosion { size: 64 });
    assert_eq!(h.health, 40);
    assert_eq!(h.max_health, 40);
    assert!(h.damage_events.is_empty());
    let h = Health::no_death_event(12);
    assert_eq!(h.health, 12);
    assert!(matches!(h.on_death, DeathEffect::NoEffect));
}

#[test]
fn names_ride_along() {
    let mut w = World::new();
    let e = w.create();
    w.insert_name(e, Name { name: String::from("pilot") });
    assert_eq!(w.get_name(e).unwrap().name, "pilot");
    w.remove_name(e);
    assert!(w.get_name(e).is_none());
}

#[test]
fn integer_square_root_is_the_floor() {
    assert_eq!(isqrt(0), 0);
    assert_eq!(isqrt(1), 1);
    assert_eq!(isqrt(3), 1);
    assert_eq!(isqrt(4), 2);
    assert_eq!(isqrt(99), 9);
    assert_eq!(isqrt(100), 10);
    assert_eq!(isqrt(u64::MAX as u128 * u64::MAX as u128), u64::MAX);
}

#[test]
fn vector_lengths_round_down() {
    let v = Vec2 { x: 3, y: 4 };
    assert_eq!(v.length(), 5);
    let v = Vec2 { x: 1, y: 1 };
    assert_eq!(v.length(), 1);
    assert_eq!(Vec2::distance(Vec2 { x: 0, y: 0 }, Vec2 { x: -6, y: 8 }), 10);
    assert_eq!(Vec2::distance(Vec2 { x: 2, y: 2 }, Vec2 { x: 4, y: 5 }), 3);
}

#[test]
fn vector_arithmetic_saturates() {
    let a = Vec2 { x: i32::MAX, y: 0 };
    let b = Vec2 { x: 1, y: -1 };
    let s = a.plus(b);
    assert_eq!((s.x, s.y), (i32::MAX, -1));
    let d = Vec2 { x: i32::MIN, y: 0 }.minus(Vec2 { x: 1, y: 0 });
    assert_eq!(d.x, i32::MIN);
    let m = Vec2 { x: 100_000, y: -2 }.scaled(100_000);
    assert_eq!((m.x, m.y), (i32::MAX, -200_000));
    assert_eq!(Vec2 { x: 3, y: -2 }.dot(&Vec2 { x: 4, y: 5 }), 2);
}

#[test]
fn respawn_only_when_no_player_lives() {
    let mut w = World::new();
    let mut sys = PlayerRespawnSystem;
    sys.run(&mut w);
    assert_eq!(w.pending_spawns.len(), 1);
    let b = &w.pending_spawns[0];
    assert!(b.player.is_some());
    assert!(b.keyboard.is_some());
    let p = b.position.unwrap();
    assert_eq!((p.x(), p.y()), (800_000, 800_000));
    assert_eq!(b.health.as_ref().unwrap().health, PLAYER_HEALTH);
    let wp = b.weapon.unwrap();
    assert_eq!(wp.speed, 1400);
    assert_eq!(wp.time_between_shots, 15);
    assert_eq!(wp.damage, 25);
    w.maintain();
    sys.run(&mut w);
    // a live player suppresses the respawn
    assert!(w.pending_spawns.is_empty());

    // an entity without the player marker does not count
    let mut w2 = World::new();
    w2.spawn_now(Bundle::empty());
    sys.run(&mut w2);
    assert_eq!(w2.pending_spawns.len(), 1);
}
