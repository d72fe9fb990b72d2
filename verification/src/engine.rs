//! The frame scheduler: runs every pass once per frame in a fixed order,
//! then commits all deferred creations and deletions.

use vstd::prelude::*;

use crate::animation::AnimationSystem;
use crate::animation::animation_pass;
use crate::collision::CollisionSystem;
use crate::collision::collision_pass;
use crate::enemy::EnemySpawnerSystem;
use crate::enemy::EnemySystem;
use crate::enemy::bump_wave;
use crate::enemy::enemy_cds_ok;
use crate::enemy::enemy_pass;
use crate::enemy::has_enemy;
use crate::enemy::spawner_pass;
use crate::enemy::spawner_wave_after;
use crate::enemy::wave_icds_ok;
use crate::input::InputV;
use crate::player::PlayerRespawnSystem;
use crate::player::respawn_pass;
use crate::resources::DeltaTime;
use crate::resources::InputResource;
use crate::systems::HealthSystem;
use crate::systems::InputSystem;
use crate::systems::LifetimeKiller;
use crate::systems::PositionUpdateSystem;
use crate::systems::health_pass;
use crate::systems::input_pass;
use crate::systems::lifetime_pass;
use crate::systems::position_pass;
use crate::systems::scatter_ok;
use crate::vec2::Vec2;
use crate::weapon::WeaponSystem;
use crate::weapon::weapon_pass;
use crate::world::World;
use crate::world::WorldV;
use crate::world::maintain_spec;

verus! {

/// The world after one whole frame, for one choice of the random draws:
/// input steering, position integration, collision detection, weapon
/// fire, lifetime housekeeping, damage/death resolution, animation, enemy
/// behaviour, wave spawning, player respawn, and finally the commit of
/// everything the passes deferred.
pub open spec fn frame_spec(
    w: WorldV,
    iv: InputV,
    dt: i32,
    wc: u32,
    ps: Seq<Vec2>,
    cds: Seq<i32>,
    icds: Seq<i32>,
) -> WorldV {
    let w1 = input_pass(w, iv);
    let w2 = position_pass(w1, dt);
    let w3 = collision_pass(w2);
    let w4 = weapon_pass(w3, dt);
    let w5 = lifetime_pass(w4, dt);
    let w6 = health_pass(w5, ps);
    let w7 = animation_pass(w6, dt);
    let w8 = enemy_pass(w7, dt, cds);
    let w9 = spawner_pass(w8, wc, icds);
    let w10 = respawn_pass(w9);
    maintain_spec(w10)
}

/// Whether a choice of random draws is admissible for the frame: the
/// explosion scatters stay within their spread, the enemy cooldowns
/// within their configured ranges, the wave draws within theirs.
pub open spec fn frame_choices_ok(
    w: WorldV,
    iv: InputV,
    dt: i32,
    wc: u32,
    ps: Seq<Vec2>,
    cds: Seq<i32>,
    icds: Seq<i32>,
) -> bool {
    let w1 = input_pass(w, iv);
    let w2 = position_pass(w1, dt);
    let w3 = collision_pass(w2);
    let w4 = weapon_pass(w3, dt);
    let w5 = lifetime_pass(w4, dt);
    let w6 = health_pass(w5, ps);
    let w7 = animation_pass(w6, dt);
    let w8 = enemy_pass(w7, dt, cds);
    &&& scatter_ok(w5.slots, ps)
    &&& enemy_cds_ok(w7.slots, dt, cds)
    &&& (has_enemy(w8.slots) || wave_icds_ok(bump_wave(wc), icds))
}

/// The wave counter after the frame, for one choice of the random draws.
pub open spec fn frame_wave_after(
    w: WorldV,
    iv: InputV,
    dt: i32,
    wc: u32,
    ps: Seq<Vec2>,
    cds: Seq<i32>,
) -> u32 {
    let w1 = input_pass(w, iv);
    let w2 = position_pass(w1, dt);
    let w3 = collision_pass(w2);
    let w4 = weapon_pass(w3, dt);
    let w5 = lifetime_pass(w4, dt);
    let w6 = health_pass(w5, ps);
    let w7 = animation_pass(w6, dt);
    let w8 = enemy_pass(w7, dt, cds);
    spawner_wave_after(w8, wc)
}

/// All registered passes, in the order they run each frame.
pub struct Dispatcher {
    pub input_system: InputSystem,
    pub position_system: PositionUpdateSystem,
    pub collision_system: CollisionSystem,
    pub weapon_system: WeaponSystem,
    pub lifetime_system: LifetimeKiller,
    pub health_system: HealthSystem,
    pub animation_system: AnimationSystem,
    pub enemy_system: EnemySystem,
    pub spawner_system: EnemySpawnerSystem,
    pub respawn_system: PlayerRespawnSystem,
}

impl Dispatcher {
    pub fn new() -> (r: Dispatcher)
        ensures
            r.spawner_system.wave_counter == 0,
    {
        Dispatcher {
            input_system: InputSystem,
            position_system: PositionUpdateSystem,
            collision_system: CollisionSystem::new(),
            weapon_system: WeaponSystem,
            lifetime_system: LifetimeKiller,
            health_system: HealthSystem,
            animation_system: AnimationSystem,
            enemy_system: EnemySystem,
            spawner_system: EnemySpawnerSystem::default(),
            respawn_system: PlayerRespawnSystem,
        }
    }

    /// Runs one whole frame: every pass once, in declared order, then the
    /// commit. The result is the frame function of the starting world for
    /// some admissible choice of the random draws.
    pub fn run_frame(&mut self, world: &mut World, input: &InputResource, delta_time: &DeltaTime)
        requires
            delta_time.0 >= 0,
        ensures
            exists|ps: Seq<Vec2>, cds: Seq<i32>, icds: Seq<i32>|
                {
                    &&& frame_choices_ok(
                        old(world)@,
                        input.0@,
                        delta_time.0,
                        old(self).spawner_system.wave_counter,
                        ps,
                        cds,
                        icds,
                    )
                    &&& final(world)@ == #[trigger] frame_spec(
                        old(world)@,
                        input.0@,
                        delta_time.0,
                        old(self).spawner_system.wave_counter,
                        ps,
                        cds,
                        icds,
                    )
                    &&& final(self).spawner_system.wave_counter == frame_wave_after(
                        old(world)@,
                        input.0@,
                        delta_time.0,
                        old(self).spawner_system.wave_counter,
                        ps,
                        cds,
                    )
                },
    {
        let ghost w0 = world@;
        let ghost iv = input.0@;
        let ghost dt = delta_time.0;
        let ghost wc0 = self.spawner_system.wave_counter;
        self.input_system.run(world, input);
        self.position_system.run(world, delta_time);
        self.collision_system.run(world);
        self.weapon_system.run(world, delta_time);
        self.lifetime_system.run(world, delta_time);
        let ghost w5 = world@;
        self.health_system.run(world);
        let ghost ps = choose|ps: Seq<Vec2>|
            scatter_ok(w5.slots, ps) && world@ == #[trigger] health_pass(w5, ps);
        let ghost w6 = world@;
        self.animation_system.run(world, delta_time);
        let ghost w7 = world@;
        self.enemy_system.run(world, delta_time);
        let ghost cds = choose|cds: Seq<i32>|
            enemy_cds_ok(w7.slots, dt, cds) && world@ == #[trigger] enemy_pass(w7, dt, cds);
        let ghost w8 = world@;
        self.spawner_system.run(world);
        let ghost icds = choose|icds: Seq<i32>|
            (has_enemy(w8.slots) || wave_icds_ok(bump_wave(wc0), icds)) && world@
                == #[trigger] spawner_pass(w8, wc0, icds);
        self.respawn_system.run(world);
        world.maintain();
        proof {
            assert(frame_choices_ok(w0, iv, dt, wc0, ps, cds, icds));
            assert(world@ == frame_spec(w0, iv, dt, wc0, ps, cds, icds));
            assert(self.spawner_system.wave_counter == frame_wave_after(w0, iv, dt, wc0, ps, cds));
        }
    }
}

} // verus!
