use shooter_core::animation::Animation;
use shooter_core::animation::AnimationSystem;
use shooter_core::components::Lifetime;
use shooter_core::components::Point;
use shooter_core::components::Position;
use shooter_core::components::Rect;
use shooter_core::components::Sprite;
use shooter_core::components::Velocity;
use shooter_core::components::KeyboardControlled;
use shooter_core::engine::Dispatcher;
use shooter_core::input::ButtonState;
use shooter_core::input::Input;
use shooter_core::input::KEY_FIRE;
use shooter_core::input::KEY_UP;
use shooter_core::input::NUM_KEYS;
use shooter_core::renderer::render_items;
use shooter_core::resources::DeltaTime;
use shooter_core::resources::InputResource;
use shooter_core::systems::InputSystem;
use shooter_core::systems::LifetimeKiller;
use shooter_core::systems::PositionUpdateSystem;
use shooter_core::vec2::Vec2;
use shooter_core::weapon::Weapon;
use shooter_core::weapon::WeaponFireCommand;
use shooter_core::world::Bundle;
use shooter_core::world::World;

#[test]
fn position_integrates_velocity_over_time() {
    let mut w = World::new();
    let mut b = Bundle::empty();
    b.position = Some(Position::new(5, 5));
    b.velocity = Some(Velocity::new(2, 3));
    let e = w.spawn_now(b);
    let mut sys = PositionUpdateSystem;
    sys.run(&mut w, &DeltaTime(10));
    let p = w.slots[e.id].comps.position.unwrap();
    assert_eq!((p.x(), p.y()), (25, 35));
}

#[test]
fn lifetime_expires_only_when_overrun() {
    let mut w = World::new();
    let mut b = Bundle::empty();
    b.lifetime = Some(Lifetime { time_left: 30 });
    let e = w.spawn_now(b);
    let mut sys = LifetimeKiller;
    for _ in 0..3 {
        sys.run(&mut w, &DeltaTime(10));
    }
    // the lifetime sits at exactly zero: not yet overrun
    assert_eq!(w.slots[e.id].comps.lifetime.unwrap().time_left, 0);
    assert!(w.pending_deletes.is_empty());
    sys.run(&mut w, &DeltaTime(10));
    assert_eq!(w.pending_deletes.len(), 1);
    w.maintain();
    assert!(!w.is_live(e));
}

#[test]
fn animation_advances_the_sprite_region() {
    let mut w = World::new();
    let mut b = Bundle::empty();
    b.sprite = Some(Sprite {
        spritesheet: 3,
        size: Point { x: 64, y: 64 },
        src_rect: Rect { x: 0, y: 0, w: 64, h: 64 },
    });
    b.animation = Some(Animation::new(30, 4, 4));
    let e = w.spawn_now(b);
    let mut sys = AnimationSystem;
    // 1000 / 30 = 33 ms per frame; 34 elapsed advances one frame
    sys.run(&mut w, &DeltaTime(34));
    let sp = w.slots[e.id].comps.sprite.unwrap();
    assert_eq!((sp.src_rect.x, sp.src_rect.y), (64, 0));
    let a = w.slots[e.id].comps.animation.unwrap();
    assert_eq!(a.internal_index, 1);
    assert_eq!(a.internal_counter, 1);
}

fn held() -> ButtonState {
    ButtonState { pressed: false, released: false, held: true }
}

#[test]
fn input_steers_controlled_entities() {
    let mut w = World::new();
    let mut b = Bundle::empty();
    b.velocity = Some(Velocity::new(9, 9));
    b.weapon = Some(Weapon::new(100, 10, 5));
    b.keyboard = Some(KeyboardControlled);
    let e = w.spawn_now(b);
    let mut input = InputResource(Input::new());
    input.0.key_state[KEY_UP] = held();
    input.0.key_state[KEY_FIRE] = held();
    let mut sys = InputSystem;
    sys.run(&mut w, &input);
    let v = w.slots[e.id].comps.velocity.unwrap();
    assert_eq!((v.x(), v.y()), (0, -400));
    let wp = w.slots[e.id].comps.weapon.unwrap();
    assert!(matches!(wp.command, WeaponFireCommand::FireOnce));
    // releasing everything stops and disarms on the next pass
    input.0.key_state[KEY_UP] = ButtonState { pressed: false, released: false, held: false };
    input.0.key_state[KEY_FIRE] = ButtonState { pressed: false, released: false, held: false };
    sys.run(&mut w, &input);
    let v = w.slots[e.id].comps.velocity.unwrap();
    assert_eq!((v.x(), v.y()), (0, 0));
    let wp = w.slots[e.id].comps.weapon.unwrap();
    assert!(matches!(wp.command, WeaponFireCommand::Waiting));
}

#[test]
fn input_snapshot_reads() {
    let mut input = Input::new();
    assert_eq!(input.key_state.len(), NUM_KEYS);
    assert!(!input.get_key(KEY_FIRE).held);
    // an out-of-range code reads as untouched, never a crash
    assert!(!input.get_key(100_000).held);
    input.set_key_held(KEY_FIRE, true);
    assert!(input.get_key(KEY_FIRE).held);
    input.set_key_held(100_000, true);
    assert_eq!(input.get_mouse_pos(), (0, 0));
    assert!(!input.get_mouse_button(2).held);
}

#[test]
fn randomize_stays_within_spread() {
    for _ in 0..32 {
        let p = Vec2::randomize(Vec2 { x: 1000, y: -1000 }, 10);
        assert!(990 <= p.x && p.x < 1010);
        assert!(-1010 <= p.y && p.y < -990);
    }
    // a one-wide spread pins the draw to the single admissible offset
    let p = Vec2::randomize(Vec2 { x: 0, y: 0 }, 1);
    assert!(p.x == -1 || p.x == 0);
    assert!(p.y == -1 || p.y == 0);
}

#[test]
fn render_query_lists_drawable_entities() {
    let mut w = World::new();
    let mut b = Bundle::empty();
    b.position = Some(Position::new(7, 8));
    b.sprite = Some(Sprite {
        spritesheet: 1,
        size: Point { x: 64, y: 64 },
        src_rect: Rect { x: 0, y: 0, w: 128, h: 128 },
    });
    w.spawn_now(b);
    // an entity without a sprite is not drawn
    let mut b2 = Bundle::empty();
    b2.position = Some(Position::new(1, 1));
    w.spawn_now(b2);
    let items = render_items(&w);
    assert_eq!(items.len(), 1);
    assert_eq!((items[0].0.x(), items[0].0.y()), (7, 8));
    assert_eq!(items[0].1.spritesheet, 1);
}

#[test]
fn first_frames_bootstrap_player_then_wave() {
    let mut world = World::new();
    let mut dispatcher = Dispatcher::new();
    let input = InputResource(Input::new());
    let dt = DeltaTime(16);

    // frame one: the spawner sees no enemy and raises wave one, the
    // respawn pass queues a player, and the commit realizes all of them
    dispatcher.run_frame(&mut world, &input, &dt);
    assert_eq!(dispatcher.spawner_system.wave_counter, 1);
    let players = world.slots.iter().filter(|s| s.alive && s.comps.player.is_some()).count();
    assert_eq!(players, 1);
    let enemies = world.slots.iter().filter(|s| s.alive && s.comps.enemy.is_some()).count();
    assert_eq!(enemies, 64);

    // the wave's enemies became visible only at this frame's start; with
    // them alive, no second wave is raised and no second player appears
    dispatcher.run_frame(&mut world, &input, &dt);
    assert_eq!(dispatcher.spawner_system.wave_counter, 1);
    let players = world.slots.iter().filter(|s| s.alive && s.comps.player.is_some()).count();
    assert_eq!(players, 1);
}

#[test]
fn empty_world_frames_are_harmless() {
    let mut world = World::new();
    let mut dispatcher = Dispatcher::new();
    let input = InputResource(Input::new());
    // the elapsed time may be zero; nothing crashes and nothing leaks
    dispatcher.run_frame(&mut world, &input, &DeltaTime(0));
    assert!(world.pending_spawns.is_empty());
    assert!(world.pending_deletes.is_empty());
}
