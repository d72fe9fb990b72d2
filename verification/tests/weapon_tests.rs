use shooter_core::collision::CircleCollider;
use shooter_core::collision::LayerMask;
use shooter_core::collision::Layers;
use shooter_core::components::Position;
use shooter_core::resources::DeltaTime;
use shooter_core::weapon::BULLET_LIFETIME_MS;
use shooter_core::weapon::Weapon;
use shooter_core::weapon::WeaponFireCommand;
use shooter_core::weapon::WeaponSystem;
use shooter_core::world::Bundle;
use shooter_core::world::World;

fn armed(weapon: Weapon) -> Bundle {
    let mut b = Bundle::empty();
    b.position = Some(Position::new(10, 20));
    b.collider = Some(CircleCollider {
        radius: 5_000,
        layer: LayerMask::from_enum(Layers::Player),
        collides_with: LayerMask::from_enum(Layers::Enemy),
    });
    b.weapon = Some(weapon);
    b
}

#[test]
fn fire_amount_burst_is_exact() {
    let mut w = World::new();
    let mut weapon = Weapon::new(100, 10, 7);
    weapon.command = WeaponFireCommand::FireAmount(3);
    let e = w.spawn_now(armed(weapon));
    let mut sys = WeaponSystem;
    let dt = DeltaTime(10);
    let mut spawned_after = Vec::new();
    for _ in 0..5 {
        sys.run(&mut w, &dt);
        spawned_after.push(w.pending_spawns.len());
    }
    // one projectile per interval, exactly three in all, never a fourth
    assert_eq!(spawned_after, vec![1, 2, 3, 3, 3]);
    let wp = w.slots[e.id].comps.weapon.unwrap();
    assert!(matches!(wp.command, WeaponFireCommand::Waiting));
}

#[test]
fn fire_once_fires_once_then_waits() {
    let mut w = World::new();
    let mut weapon = Weapon::new(100, 10, 7);
    weapon.command = WeaponFireCommand::FireOnce;
    let e = w.spawn_now(armed(weapon));
    let mut sys = WeaponSystem;
    sys.run(&mut w, &DeltaTime(10));
    sys.run(&mut w, &DeltaTime(10));
    assert_eq!(w.pending_spawns.len(), 1);
    let wp = w.slots[e.id].comps.weapon.unwrap();
    assert!(matches!(wp.command, WeaponFireCommand::Waiting));
    assert_eq!(wp.cooldown, 0);
}

#[test]
fn waiting_weapon_never_fires() {
    let mut w = World::new();
    w.spawn_now(armed(Weapon::new(100, 10, 7)));
    let mut sys = WeaponSystem;
    for _ in 0..4 {
        sys.run(&mut w, &DeltaTime(50));
    }
    assert!(w.pending_spawns.is_empty());
}

#[test]
fn burst_of_zero_fires_nothing_and_waits() {
    let mut w = World::new();
    let mut weapon = Weapon::new(100, 10, 7);
    weapon.command = WeaponFireCommand::FireAmount(0);
    let e = w.spawn_now(armed(weapon));
    let mut sys = WeaponSystem;
    sys.run(&mut w, &DeltaTime(10));
    assert!(w.pending_spawns.is_empty());
    let wp = w.slots[e.id].comps.weapon.unwrap();
    assert!(matches!(wp.command, WeaponFireCommand::Waiting));
}

#[test]
fn cooldown_gates_the_next_shot() {
    let mut w = World::new();
    let mut weapon = Weapon::new(100, 100, 7);
    weapon.command = WeaponFireCommand::FireAmount(2);
    w.spawn_now(armed(weapon));
    let mut sys = WeaponSystem;
    sys.run(&mut w, &DeltaTime(10));
    assert_eq!(w.pending_spawns.len(), 1);
    // 10 of the 100 cooldown elapsed: not ready yet
    sys.run(&mut w, &DeltaTime(10));
    assert_eq!(w.pending_spawns.len(), 1);
    sys.run(&mut w, &DeltaTime(90));
    assert_eq!(w.pending_spawns.len(), 2);
}

#[test]
fn projectile_inherits_shooter_and_weapon() {
    let mut w = World::new();
    let mut weapon = Weapon::new(800, 10, 7);
    weapon.command = WeaponFireCommand::FireOnce;
    w.spawn_now(armed(weapon));
    let mut sys = WeaponSystem;
    sys.run(&mut w, &DeltaTime(1));
    assert_eq!(w.pending_spawns.len(), 1);
    let b = &w.pending_spawns[0];
    assert!(b.projectile.is_some());
    let p = b.position.unwrap();
    assert_eq!((p.x(), p.y()), (10, 20));
    // the projectile flies opposite to the weapon's speed sign
    let v = b.velocity.unwrap();
    assert_eq!((v.x(), v.y()), (0, -800));
    assert_eq!(b.damage.unwrap().damage, 7);
    assert_eq!(b.lifetime.unwrap().time_left, BULLET_LIFETIME_MS);
    let c = b.collider.unwrap();
    assert_eq!(c.layer.bitmask, LayerMask::from_enum(Layers::Player).bitmask);
    assert_eq!(c.collides_with.bitmask, LayerMask::from_enum(Layers::Enemy).bitmask);
    let h = b.health.as_ref().unwrap();
    assert_eq!(h.health, 1);
}
