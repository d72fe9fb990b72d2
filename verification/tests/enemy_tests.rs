use shooter_core::components::Position;
use shooter_core::components::Velocity;
use shooter_core::enemy::AttackConfig;
use shooter_core::enemy::Direction;
use shooter_core::enemy::Enemy;
use shooter_core::enemy::EnemyMoveState;
use shooter_core::enemy::EnemySpawnerSystem;
use shooter_core::enemy::EnemySystem;
use shooter_core::enemy::PATROL_DISTANCE;
use shooter_core::resources::DeltaTime;
use shooter_core::weapon::Weapon;
use shooter_core::weapon::WeaponFireCommand;
use shooter_core::world::Bundle;
use shooter_core::world::Entity;
use shooter_core::world::World;

fn enemy_at(x: i32, y: i32, enemy: Enemy) -> Bundle {
    let mut b = Bundle::empty();
    b.position = Some(Position::new(x, y));
    b.velocity = Some(Velocity::new(0, 0));
    b.enemy = Some(enemy);
    b.weapon = Some(Weapon::new(100, 10, 5));
    b
}

fn move_state(w: &World, e: Entity) -> EnemyMoveState {
    w.slots[e.id].comps.enemy.unwrap().move_state
}

fn set_position(w: &mut World, e: Entity, x: i32, y: i32) {
    w.slots[e.id].comps.position = Some(Position::new(x, y));
}

#[test]
fn patrol_cycles_right_down_left_up_right() {
    let mut w = World::new();
    // a long constant attack cooldown keeps firing out of the way
    let e = w.spawn_now(enemy_at(0, 0, Enemy::new(1, AttackConfig::Constant(1_000_000, 1))));
    let mut sys = EnemySystem;
    let dt = DeltaTime(1);

    // idle: pick rightward and a target one patrol leg away
    sys.run(&mut w, &dt);
    assert_eq!(
        move_state(&w, e),
        EnemyMoveState::Moving(Direction::Right, Position::new(PATROL_DISTANCE, 0).position)
    );

    // past the target along the axis: rotate right -> down
    set_position(&mut w, e, 2 * PATROL_DISTANCE, 0);
    sys.run(&mut w, &dt);
    assert_eq!(
        move_state(&w, e),
        EnemyMoveState::Moving(
            Direction::Down,
            Position::new(PATROL_DISTANCE, PATROL_DISTANCE).position
        )
    );

    // down -> left
    set_position(&mut w, e, PATROL_DISTANCE, 2 * PATROL_DISTANCE);
    sys.run(&mut w, &dt);
    assert_eq!(
        move_state(&w, e),
        EnemyMoveState::Moving(Direction::Left, Position::new(0, PATROL_DISTANCE).position)
    );

    // left -> up
    set_position(&mut w, e, -PATROL_DISTANCE, PATROL_DISTANCE);
    sys.run(&mut w, &dt);
    assert_eq!(
        move_state(&w, e),
        EnemyMoveState::Moving(Direction::Up, Position::new(0, 0).position)
    );

    // up -> right: the cycle closes without skipping a state
    set_position(&mut w, e, 0, -PATROL_DISTANCE);
    sys.run(&mut w, &dt);
    match move_state(&w, e) {
        EnemyMoveState::Moving(d, _) => assert_eq!(d, Direction::Right),
        other => panic!("expected a moving state, got {:?}", other),
    }
}

#[test]
fn moving_enemy_takes_direction_velocity() {
    let mut w = World::new();
    let e = w.spawn_now(enemy_at(0, 0, Enemy::new(70, AttackConfig::Constant(1_000_000, 1))));
    let mut sys = EnemySystem;
    sys.run(&mut w, &DeltaTime(1));
    // the idle tick leaves velocity alone
    let v = w.slots[e.id].comps.velocity.unwrap();
    assert_eq!((v.x(), v.y()), (0, 0));
    sys.run(&mut w, &DeltaTime(1));
    let v = w.slots[e.id].comps.velocity.unwrap();
    assert_eq!((v.x(), v.y()), (70, 0));
}

#[test]
fn attack_timer_commands_a_burst() {
    let mut w = World::new();
    let e = w.spawn_now(enemy_at(0, 0, Enemy::new(1, AttackConfig::Constant(50, 4))));
    let mut sys = EnemySystem;
    sys.run(&mut w, &DeltaTime(49));
    let wp = w.slots[e.id].comps.weapon.unwrap();
    assert!(matches!(wp.command, WeaponFireCommand::Waiting));
    sys.run(&mut w, &DeltaTime(1));
    let wp = w.slots[e.id].comps.weapon.unwrap();
    assert!(matches!(wp.command, WeaponFireCommand::FireAmount(4)));
    // the timer is rearmed to the constant cooldown
    assert_eq!(w.slots[e.id].comps.enemy.unwrap().attack_cooldown, 50);
}

#[test]
fn random_attack_cooldown_stays_in_range() {
    let mut w = World::new();
    // a one-wide sampling range pins the redrawn cooldown exactly
    let e = w.spawn_now(enemy_at(0, 0, Enemy::new(1, AttackConfig::Random(5, 6, 2))));
    {
        let en = w.slots[e.id].comps.enemy.as_mut().unwrap();
        en.attack_cooldown = 0;
    }
    let mut sys = EnemySystem;
    sys.run(&mut w, &DeltaTime(1));
    assert_eq!(w.slots[e.id].comps.enemy.unwrap().attack_cooldown, 5);
    let wp = w.slots[e.id].comps.weapon.unwrap();
    assert!(matches!(wp.command, WeaponFireCommand::FireAmount(2)));
}

#[test]
fn random_initial_cooldown_stays_in_range() {
    for _ in 0..32 {
        let e = Enemy::new(1, AttackConfig::Random(5_000, 15_000, 3));
        assert!(0 <= e.attack_cooldown && e.attack_cooldown < 15_000);
    }
    // a one-wide range pins the draw exactly
    let e = Enemy::new(1, AttackConfig::Random(0, 1, 3));
    assert_eq!(e.attack_cooldown, 0);
}

#[test]
fn spawner_raises_a_wave_only_when_no_enemy_lives() {
    let mut w = World::new();
    let mut sys = EnemySpawnerSystem::default();
    sys.run(&mut w);
    assert_eq!(sys.wave_counter, 1);
    // wave one: a 16 by 4 grid
    assert_eq!(w.pending_spawns.len(), 64);
    let first = &w.pending_spawns[0];
    let p = first.position.unwrap();
    assert_eq!((p.x(), p.y()), (100_000, 100_000));
    let en = first.enemy.unwrap();
    assert!(matches!(en.move_state, EnemyMoveState::Idle));
    assert!(matches!(en.attack_config, AttackConfig::Random(5_000, 15_000, 3)));
    assert!(0 <= en.attack_cooldown && en.attack_cooldown < 15_000);
    assert_eq!(first.health.as_ref().unwrap().health, 25);
    assert_eq!(first.damage.unwrap().damage, 5);
    let wp = first.weapon.unwrap();
    assert_eq!(wp.speed, -800);
    assert_eq!(wp.time_between_shots, 500);
    // the second bundle walks the grid row-major
    let p = w.pending_spawns[1].position.unwrap();
    assert_eq!((p.x(), p.y()), (100_000, 180_000));
    // once the wave is realized, no further wave is raised
    w.maintain();
    sys.run(&mut w);
    assert_eq!(sys.wave_counter, 1);
    assert!(w.pending_spawns.is_empty());
}
