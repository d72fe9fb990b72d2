use shooter_core::assets::EXPLOSION_SPRITE_ID;
use shooter_core::collision::CircleCollider;
use shooter_core::collision::LayerMask;
use shooter_core::collision::Layers;
use shooter_core::components::Damage;
use shooter_core::components::DeathEffect;
use shooter_core::components::Health;
use shooter_core::components::Position;
use shooter_core::components::Projectile;
use shooter_core::enemy::AttackConfig;
use shooter_core::enemy::Enemy;
use shooter_core::engine::Dispatcher;
use shooter_core::input::Input;
use shooter_core::resources::DeltaTime;
use shooter_core::resources::InputResource;
use shooter_core::world::Bundle;
use shooter_core::world::World;

/// One whole frame resolves a contact end to end: the collision pass
/// queues damage, the resolution pass kills both sides, their death
/// reactions queue explosion effects, the dead entities are reaped and
/// the effects realized by the commit — all within the same frame, while
/// reads during the frame still saw the old world.
#[test]
fn contact_kills_and_spawns_effects_in_one_frame() {
    let mut world = World::new();
    let mut dispatcher = Dispatcher::new();
    let input = InputResource(Input::new());
    let dt = DeltaTime(0);

    let mut enemy = Bundle::empty();
    enemy.position = Some(Position::new(0, 0));
    enemy.collider = Some(CircleCollider {
        radius: 10_000,
        layer: LayerMask::from_enum(Layers::Enemy),
        collides_with: LayerMask::from_enum(Layers::Player),
    });
    enemy.health = Some(Health::new(5, DeathEffect::SpawnExplosion { size: 64 }));
    enemy.damage = Some(Damage::new(1));
    // the enemy marker is what the wave spawner counts; without a velocity
    // and a weapon the behaviour pass leaves this entity alone
    enemy.enemy = Some(Enemy::new(0, AttackConfig::Constant(1_000_000, 1)));
    let enemy_e = world.spawn_now(enemy);

    let mut projectile = Bundle::empty();
    projectile.projectile = Some(Projectile);
    projectile.position = Some(Position::new(1_000, 0));
    projectile.collider = Some(CircleCollider {
        radius: 10_000,
        layer: LayerMask::from_enum(Layers::Player),
        collides_with: LayerMask::from_enum(Layers::Enemy),
    });
    projectile.health = Some(Health::new(1, DeathEffect::SpawnExplosion { size: 32 }));
    projectile.damage = Some(Damage::new(10));
    let proj_e = world.spawn_now(projectile);

    dispatcher.run_frame(&mut world, &input, &dt);

    // both sides died of the contact and were reaped at the commit
    assert!(!world.is_live(enemy_e));
    assert!(!world.is_live(proj_e));
    // their reactions left two explosion effects, and the respawn pass
    // noticed the missing player; the spawner still saw the enemy alive
    // mid-frame, so no wave was raised
    let explosions = world
        .slots
        .iter()
        .filter(|s| {
            s.alive && s.comps.sprite.map_or(false, |sp| sp.spritesheet == EXPLOSION_SPRITE_ID)
        })
        .count();
    assert_eq!(explosions, 2);
    let players = world.slots.iter().filter(|s| s.alive && s.comps.player.is_some()).count();
    assert_eq!(players, 1);
    assert_eq!(dispatcher.spawner_system.wave_counter, 0);

    // the next frame finds no enemy and raises a wave
    dispatcher.run_frame(&mut world, &input, &dt);
    assert_eq!(dispatcher.spawner_system.wave_counter, 1);
    let enemies = world.slots.iter().filter(|s| s.alive && s.comps.enemy.is_some()).count();
    assert_eq!(enemies, 64);

    // the explosion effects expire once their lifetime is overrun
    dispatcher.run_frame(&mut world, &input, &DeltaTime(600));
    let explosions = world
        .slots
        .iter()
        .filter(|s| {
            s.alive && s.comps.sprite.map_or(false, |sp| sp.spritesheet == EXPLOSION_SPRITE_ID)
        })
        .count();
    assert_eq!(explosions, 0);
}
