//! Enemy movement and attack: a patrol state machine that walks a square
//! (right, down, left, up) and an attack timer that commands the owned
//! weapon to fire bursts.

use vstd::prelude::*;

use crate::assets::BOSS_SPRITE_ID;
use crate::collision::CircleCollider;
use crate::collision::LayerMask;
use crate::collision::Layers;
use crate::components::Damage;
use crate::components::DeathEffect;
use crate::components::Health;
use crate::components::HealthV;
use crate::components::Point;
use crate::components::Position;
use crate::components::Rect;
use crate::components::Sprite;
use crate::components::Velocity;
use crate::resources::DeltaTime;
use crate::world::Bundle;
use crate::world::bundle_v_empty;
use crate::rng::sample_range_i32;
use crate::systems::cool_timer;
use crate::systems::cooled;
use crate::vec2::Vec2;
use crate::vec2::vec2_dot;
use crate::vec2::vec2_minus;
use crate::vec2::vec2_plus;
use crate::vec2::vec2_scaled;
use crate::weapon::Weapon;
use crate::weapon::WeaponFireCommand;
use crate::world::BundleV;
use crate::world::SlotV;
use crate::world::World;
use crate::world::WorldV;

verus! {

/// How far an enemy walks along each patrol leg, in milliunits.
pub const PATROL_DISTANCE: i32 = 100_000;

/// The four patrol directions, advanced in a fixed cyclic order.
#[derive(Debug, Copy, Clone, PartialEq, Eq, Structural)]
pub enum Direction {
    Right,
    Down,
    Left,
    Up,
}

/// The cyclic successor: right, down, left, up, and back to right.
pub open spec fn direction_next(d: Direction) -> Direction {
    match d {
        Direction::Right => Direction::Down,
        Direction::Down => Direction::Left,
        Direction::Left => Direction::Up,
        Direction::Up => Direction::Right,
    }
}

/// The unit vector of a direction (screen axes: y grows downward).
pub open spec fn direction_vec(d: Direction) -> Vec2 {
    match d {
        Direction::Right => Vec2 { x: 1, y: 0 },
        Direction::Down => Vec2 { x: 0, y: 1 },
        Direction::Left => Vec2 { x: -1i32, y: 0 },
        Direction::Up => Vec2 { x: 0, y: -1i32 },
    }
}

impl Direction {
    pub fn next(&self) -> (r: Direction)
        ensures
            r == direction_next(*self),
    {
        match *self {
            Direction::Right => Direction::Down,
            Direction::Down => Direction::Left,
            Direction::Left => Direction::Up,
            Direction::Up => Direction::Right,
        }
    }

    pub fn to_vec(&self) -> (r: Vec2)
        ensures
            r == direction_vec(*self),
    {
        match *self {
            Direction::Right => Vec2::right(),
            Direction::Down => Vec2::down(),
            Direction::Left => Vec2::left(),
            Direction::Up => Vec2::up(),
        }
    }
}

/// Whether an enemy is between patrol legs or walking toward a target point.
#[derive(Debug, Copy, Clone, PartialEq, Eq, Structural)]
pub enum EnemyMoveState {
    Idle,
    Moving(Direction, Vec2),
}

/// How an enemy times its attacks. Cooldowns are in milliseconds.
#[derive(Debug, Copy, Clone, PartialEq, Eq, Structural)]
pub enum AttackConfig {
    /// A fixed cooldown and a fixed burst size.
    Constant(i32, u32),
    /// A cooldown sampled uniformly from `[min, max)` and a fixed burst size.
    Random(i32, i32, u32),
}

/// The burst size an attack configuration fires.
pub open spec fn attack_burst(cfg: AttackConfig) -> u32 {
    match cfg {
        AttackConfig::Constant(_, amount) => amount,
        AttackConfig::Random(_, _, amount) => amount,
    }
}

/// What the attack cooldown may be right after construction: a constant
/// configuration starts at its cooldown, a random one anywhere in
/// `[0, max)` so that a fresh wave does not fire in lockstep.
pub open spec fn initial_cooldown_ok(cfg: AttackConfig, cd: i32) -> bool {
    match cfg {
        AttackConfig::Constant(cooldown, _) => cd == cooldown,
        AttackConfig::Random(_, max_cooldown, _) => if max_cooldown > 0 {
            0 <= cd < max_cooldown
        } else {
            cd == 0
        },
    }
}

/// What the attack cooldown may be right after firing.
pub open spec fn reset_cooldown_ok(cfg: AttackConfig, cd: i32) -> bool {
    match cfg {
        AttackConfig::Constant(cooldown, _) => cd == cooldown,
        AttackConfig::Random(min_cooldown, max_cooldown, _) => if min_cooldown < max_cooldown {
            min_cooldown <= cd < max_cooldown
        } else {
            cd == min_cooldown
        },
    }
}

/// An enemy: walking speed in milliunits per millisecond, the patrol state,
/// the attack configuration, and the time left until the next attack.
#[derive(Debug, Copy, Clone, PartialEq, Eq, Structural)]
pub struct Enemy {
    pub speed: i32,
    pub move_state: EnemyMoveState,
    pub attack_config: AttackConfig,
    pub attack_cooldown: i32,
}

impl Enemy {
    pub fn new(speed: i32, attack_config: AttackConfig) -> (r: Enemy)
        ensures
            r.speed == speed,
            r.move_state == EnemyMoveState::Idle,
            r.attack_config == attack_config,
            initial_cooldown_ok(attack_config, r.attack_cooldown),
    {
        let attack_cooldown: i32 = match attack_config {
            AttackConfig::Constant(cooldown, _) => cooldown,
            AttackConfig::Random(_, max_cooldown, _) => {
                if max_cooldown > 0 {
                    sample_range_i32(0, max_cooldown)
                } else {
                    0
                }
            },
        };
        Enemy { speed, move_state: EnemyMoveState::Idle, attack_config, attack_cooldown }
    }

    /// Commands the owned weapon to fire a burst and rearms the attack timer.
    pub fn fire(&mut self, weapon: &mut Weapon)
        ensures
            *final(weapon) == (Weapon {
                command: WeaponFireCommand::FireAmount(attack_burst(old(self).attack_config)),
                ..*old(weapon)
            }),
            final(self).speed == old(self).speed,
            final(self).move_state == old(self).move_state,
            final(self).attack_config == old(self).attack_config,
            reset_cooldown_ok(old(self).attack_config, final(self).attack_cooldown),
    {
        match self.attack_config {
            AttackConfig::Constant(cooldown, amount) => {
                weapon.command = WeaponFireCommand::FireAmount(amount);
                self.attack_cooldown = cooldown;
            },
            AttackConfig::Random(min_cooldown, max_cooldown, amount) => {
                weapon.command = WeaponFireCommand::FireAmount(amount);
                if min_cooldown < max_cooldown {
                    self.attack_cooldown = sample_range_i32(min_cooldown, max_cooldown);
                } else {
                    self.attack_cooldown = min_cooldown;
                }
            },
        }
    }
}

/// One movement step: an idle enemy picks the rightward direction and a
/// target one patrol leg away, and starts moving. A moving enemy walks at
/// its speed along its direction; once the dot product of the vector to
/// the target with the direction turns negative (the target has been
/// passed), the direction advances cyclically and a new target extends
/// from the old one. The second component is the velocity to take this
/// tick, absent on the idle-to-moving transition.
pub open spec fn enemy_move_step(en: Enemy, pos: Vec2) -> (Enemy, Option<Vec2>) {
    match en.move_state {
        EnemyMoveState::Idle => (
            Enemy {
                move_state: EnemyMoveState::Moving(
                    Direction::Right,
                    vec2_plus(pos, vec2_scaled(direction_vec(Direction::Right), PATROL_DISTANCE)),
                ),
                ..en
            },
            None,
        ),
        EnemyMoveState::Moving(d, target) => {
            let dot = vec2_dot(vec2_minus(target, pos), direction_vec(d));
            let nv = vec2_scaled(direction_vec(d), en.speed);
            if dot < 0 {
                let nd = direction_next(d);
                let nt = vec2_plus(target, vec2_scaled(direction_vec(nd), PATROL_DISTANCE));
                (Enemy { move_state: EnemyMoveState::Moving(nd, nt), ..en }, Some(nv))
            } else {
                (en, Some(nv))
            }
        },
    }
}

/// Whether the pass processes the slot: a live enemy with a position, a
/// velocity and a weapon.
pub open spec fn enemy_processed(s: SlotV) -> bool {
    s.alive && s.comps.position is Some && s.comps.enemy is Some && s.comps.velocity is Some
        && s.comps.weapon is Some
}

/// Whether the slot's enemy attacks this tick: its attack cooldown runs out.
pub open spec fn enemy_fires(s: SlotV, dt: i32) -> bool {
    enemy_processed(s) && match s.comps.enemy {
        Some(en) => cooled(en.attack_cooldown, dt) == 0,
        None => false,
    }
}

/// One enemy step of a slot, given the attack cooldown `cd` drawn for it:
/// the attack timer shrinks by the elapsed time; at zero the enemy
/// commands its weapon to fire its burst and rearms the timer to `cd`;
/// then the movement step runs. Slots the pass does not process are
/// untouched.
pub open spec fn enemy_slot(s: SlotV, dt: i32, cd: i32) -> SlotV {
    if enemy_processed(s) {
        match (s.comps.position, s.comps.enemy, s.comps.velocity, s.comps.weapon) {
            (Some(p), Some(en), Some(v), Some(w)) => {
                let c = cooled(en.attack_cooldown, dt);
                let en1 = Enemy { attack_cooldown: if c == 0 { cd } else { c }, ..en };
                let w1 = if c == 0 {
                    Weapon {
                        command: WeaponFireCommand::FireAmount(attack_burst(en.attack_config)),
                        ..w
                    }
                } else {
                    w
                };
                let mv = enemy_move_step(en1, p.position);
                let nv = match mv.1 {
                    Some(x) => x,
                    None => v.velocity,
                };
                SlotV {
                    comps: BundleV {
                        enemy: Some(mv.0),
                        velocity: Some(Velocity { velocity: nv }),
                        weapon: Some(w1),
                        ..s.comps
                    },
                    ..s
                }
            },
            _ => s,
        }
    } else {
        s
    }
}

/// Whether the attack cooldowns drawn for the pass are admissible: one per
/// slot, each allowed by the firing enemy's attack configuration.
pub open spec fn enemy_cds_ok(slots: Seq<SlotV>, dt: i32, cds: Seq<i32>) -> bool {
    cds.len() == slots.len() && forall|i: int|
        0 <= i < slots.len() && #[trigger] enemy_fires(slots[i], dt) ==> match slots[i].comps.enemy {
            Some(en) => reset_cooldown_ok(en.attack_config, cds[i]),
            None => true,
        }
}

/// The whole enemy pass for one admissible choice of attack cooldowns:
/// every enemy slot stepped, the queues untouched.
pub open spec fn enemy_pass(w: WorldV, dt: i32, cds: Seq<i32>) -> WorldV {
    WorldV { slots: Seq::new(w.slots.len(), |i: int| enemy_slot(w.slots[i], dt, cds[i])), ..w }
}

/// The enemy movement/attack pass.
pub struct EnemySystem;

impl EnemySystem {
    pub fn run(&mut self, world: &mut World, delta_time: &DeltaTime)
        requires
            delta_time.0 >= 0,
        ensures
            exists|cds: Seq<i32>|
                enemy_cds_ok(old(world)@.slots, delta_time.0, cds) && final(world)@
                    == #[trigger] enemy_pass(old(world)@, delta_time.0, cds),
    {
        let dt = delta_time.0;
        let ghost w0 = world@;
        let ghost mut cds: Seq<i32> = Seq::empty();
        let mut i: usize = 0;
        while i < world.slots.len()
            invariant
                i <= world.slots@.len(),
                world.slots@.len() == w0.slots.len(),
                dt >= 0,
                cds.len() == i,
                forall|j: int| 0 <= j < i ==> world@.slots[j] == enemy_slot(w0.slots[j], dt, cds[j]),
                forall|j: int| i <= j < world.slots@.len() ==> world@.slots[j] == w0.slots[j],
                forall|j: int|
                    0 <= j < i && #[trigger] enemy_fires(w0.slots[j], dt) ==> match w0.slots[j].comps.enemy {
                        Some(en) => reset_cooldown_ok(en.attack_config, cds[j]),
                        None => true,
                    },
                world@.pending_spawns == w0.pending_spawns,
                world@.pending_deletes == w0.pending_deletes,
            decreases world.slots@.len() - i,
        {
            let ghost pre = world@;
            let alive = world.slots[i].alive;
            let mut update: Option<(Enemy, Velocity, Weapon)> = None;
            match (
                &world.slots[i].comps.position,
                &world.slots[i].comps.enemy,
                &world.slots[i].comps.velocity,
                &world.slots[i].comps.weapon,
            ) {
                (Some(p), Some(en), Some(v), Some(w)) => {
                    if alive {
                        let mut en2 = *en;
                        let mut w2 = *w;
                        let c = cool_timer(en.attack_cooldown, dt);
                        en2.attack_cooldown = c;
                        if c == 0 {
                            en2.fire(&mut w2);
                        }
                        proof {
                            cds = cds.push(en2.attack_cooldown);
                        }
                        let mut nv = *v;
                        match en2.move_state {
                            EnemyMoveState::Idle => {
                                let target = p.position.plus(
                                    Direction::Right.to_vec().scaled(PATROL_DISTANCE),
                                );
                                en2.move_state = EnemyMoveState::Moving(Direction::Right, target);
                            },
                            EnemyMoveState::Moving(d, target) => {
                                let dirv = d.to_vec();
                                let dot = target.minus(p.position).dot(&dirv);
                                nv = Velocity { velocity: dirv.scaled(en2.speed) };
                                if dot < 0 {
                                    let nd = d.next();
                                    let nt = target.plus(nd.to_vec().scaled(PATROL_DISTANCE));
                                    en2.move_state = EnemyMoveState::Moving(nd, nt);
                                }
                            },
                        }
                        update = Some((en2, nv, w2));
                    }
                },
                _ => {},
            }
            match update {
                Some((en2, nv, w2)) => {
                    let slot = &mut world.slots[i];
                    slot.comps.enemy = Some(en2);
                    slot.comps.velocity = Some(nv);
                    slot.comps.weapon = Some(w2);
                },
                None => {
                    proof {
                        cds = cds.push(0i32);
                    }
                },
            }
            proof {
                assert(world@.slots[i as int] =~~= enemy_slot(w0.slots[i as int], dt, cds.last()));
                assert forall|j: int| 0 <= j < i + 1 implies world@.slots[j] == enemy_slot(
                    w0.slots[j],
                    dt,
                    cds[j],
                ) by {
                    if j != i {
                        assert(world@.slots[j] == pre.slots[j]);
                        assert(pre.slots[j] == enemy_slot(w0.slots[j], dt, cds[j]));
                    }
                }
            }
            i = i + 1;
        }
        proof {
            assert(enemy_cds_ok(w0.slots, dt, cds));
            assert(world@ =~~= enemy_pass(w0, dt, cds));
        }
    }
}

/// The wave counter never grows past this, so the wave grid arithmetic
/// stays in range.
pub const WAVE_LIMIT: u32 = 1_000_000;

/// An enemy's collision radius, in milliunits.
pub const ENEMY_RADIUS: u32 = 32_000;

/// The explosion size a dying enemy leaves, in pixels.
pub const ENEMY_EXPLOSION_SIZE: i32 = 64;

/// The shortest cooldown a wave enemy's attacks draw from, in milliseconds.
pub const ENEMY_ATTACK_MIN_MS: i32 = 5_000;

/// The longest cooldown a wave enemy's attacks draw from, in milliseconds.
pub const ENEMY_ATTACK_MAX_MS: i32 = 15_000;

/// Whether any live entity carries an enemy component.
pub open spec fn has_enemy(slots: Seq<SlotV>) -> bool {
    exists|i: int|
        0 <= i < slots.len() && (#[trigger] slots[i]).alive && slots[i].comps.enemy is Some
}

/// The wave counter after a wave spawn: one further, stopping at the limit.
pub open spec fn bump_wave(wc: u32) -> u32 {
    if wc < WAVE_LIMIT {
        (wc + 1) as u32
    } else {
        WAVE_LIMIT
    }
}

/// How many columns a wave has.
pub open spec fn wave_width(wc: u32) -> int {
    16 * wc as int
}

/// How many rows a wave has.
pub open spec fn wave_height(wc: u32) -> int {
    4 * wc as int
}

/// How many enemies a wave has.
pub open spec fn wave_total(wc: u32) -> int {
    wave_width(wc) * wave_height(wc)
}

/// A grid ordinate of a wave enemy, in milliunits: later waves pack the
/// grid tighter.
pub open spec fn grid_coord(wc: u32, g: int) -> int {
    (100 + g * 80 / wc as int) * 1000
}

/// One wave enemy at grid cell `(x, y)` with the drawn initial attack
/// cooldown `icd`: on the enemy collision layer and reacting to the
/// player, patrolling from idle, firing downward bursts of three on a
/// randomly drawn cooldown.
pub open spec fn wave_enemy(wc: u32, x: int, y: int, icd: i32) -> BundleV {
    BundleV {
        position: Some(
            Position {
                position: Vec2 { x: grid_coord(wc, x) as i32, y: grid_coord(wc, y) as i32 },
            },
        ),
        sprite: Some(
            Sprite {
                spritesheet: BOSS_SPRITE_ID,
                size: Point { x: (64int / wc as int) as i32, y: (64int / wc as int) as i32 },
                src_rect: Rect { x: 0, y: 0, w: 128, h: 128 },
            },
        ),
        velocity: Some(Velocity { velocity: Vec2 { x: 0, y: 0 } }),
        collider: Some(
            CircleCollider {
                radius: ENEMY_RADIUS,
                layer: LayerMask { bitmask: crate::collision::layer_bit(Layers::Enemy) },
                collides_with: LayerMask { bitmask: crate::collision::layer_bit(Layers::Player) },
            },
        ),
        health: Some(
            HealthV {
                health: 25u32,
                max_health: 25u32,
                damage_events: Seq::empty(),
                on_death: DeathEffect::SpawnExplosion { size: ENEMY_EXPLOSION_SIZE },
            },
        ),
        damage: Some(Damage { damage: 5 }),
        enemy: Some(
            Enemy {
                speed: 100,
                move_state: EnemyMoveState::Idle,
                attack_config: AttackConfig::Random(ENEMY_ATTACK_MIN_MS, ENEMY_ATTACK_MAX_MS, 3),
                attack_cooldown: icd,
            },
        ),
        weapon: Some(
            Weapon {
                speed: -800i32,
                time_between_shots: 500,
                cooldown: 0,
                command: WeaponFireCommand::Waiting,
                damage: 5,
            },
        ),
        ..bundle_v_empty()
    }
}

/// The wave enemies a drawn cooldown sequence yields, one per cooldown,
/// walking the grid row-major: entry `k` sits at column `k / rows` and
/// row `k % rows`.
pub open spec fn wave_bundles(wc: u32, icds: Seq<i32>) -> Seq<BundleV>
    decreases icds.len(),
{
    if icds.len() == 0 {
        Seq::empty()
    } else {
        wave_bundles(wc, icds.drop_last()).push(
            wave_enemy(
                wc,
                (icds.len() - 1) as int / wave_height(wc),
                (icds.len() - 1) as int % wave_height(wc),
                icds.last(),
            ),
        )
    }
}

/// Whether the drawn initial cooldowns are admissible for a wave: one per
/// enemy, each within the random attack configuration's sampling range.
pub open spec fn wave_icds_ok(wc: u32, icds: Seq<i32>) -> bool {
    icds.len() == wave_total(wc) && forall|i: int|
        0 <= i < icds.len() ==> 0 <= #[trigger] icds[i] < ENEMY_ATTACK_MAX_MS
}

/// The wave counter after the pass.
pub open spec fn spawner_wave_after(w: WorldV, wc: u32) -> u32 {
    if has_enemy(w.slots) {
        wc
    } else {
        bump_wave(wc)
    }
}

/// The whole spawner pass for one admissible cooldown draw: when no live
/// enemy exists, a full wave of enemies is queued for deferred creation;
/// otherwise nothing changes.
pub open spec fn spawner_pass(w: WorldV, wc: u32, icds: Seq<i32>) -> WorldV {
    if has_enemy(w.slots) {
        w
    } else {
        WorldV { pending_spawns: w.pending_spawns + wave_bundles(bump_wave(wc), icds), ..w }
    }
}

/// The wave spawner pass: it owns the wave counter.
#[derive(Default)]
pub struct EnemySpawnerSystem {
    pub wave_counter: u32,
}

impl EnemySpawnerSystem {
    pub fn default() -> (r: Self)
        ensures
            r.wave_counter == 0,
    {
        EnemySpawnerSystem { wave_counter: 0 }
    }

    pub fn run(&mut self, world: &mut World)
        ensures
            final(self).wave_counter == spawner_wave_after(old(world)@, old(self).wave_counter),
            exists|icds: Seq<i32>|
                (has_enemy(old(world)@.slots) || wave_icds_ok(
                    bump_wave(old(self).wave_counter),
                    icds,
                )) && final(world)@ == #[trigger] spawner_pass(
                    old(world)@,
                    old(self).wave_counter,
                    icds,
                ),
    {
        let ghost w0 = world@;
        let mut enemy_alive = false;
        let mut i: usize = 0;
        while i < world.slots.len()
            invariant
                i <= world.slots@.len(),
                world@ == w0,
                enemy_alive == exists|j: int|
                    0 <= j < i && (#[trigger] w0.slots[j]).alive && w0.slots[j].comps.enemy
                        is Some,
            decreases world.slots@.len() - i,
        {
            let hit = world.slots[i].alive && world.slots[i].comps.enemy.is_some();
            if hit {
                enemy_alive = true;
            }
            proof {
                if enemy_alive {
                    if hit {
                        assert((w0.slots[i as int]).alive && w0.slots[i as int].comps.enemy
                            is Some);
                    } else {
                        let j = choose|j: int|
                            0 <= j < i && (#[trigger] w0.slots[j]).alive
                                && w0.slots[j].comps.enemy is Some;
                        assert(0 <= j < i + 1 && (w0.slots[j]).alive && w0.slots[j].comps.enemy
                            is Some);
                    }
                    assert(exists|j: int|
                        0 <= j < i + 1 && (#[trigger] w0.slots[j]).alive
                            && w0.slots[j].comps.enemy is Some);
                }
            }
            i = i + 1;
        }
        proof {
            assert(enemy_alive == has_enemy(w0.slots));
        }
        if enemy_alive {
            proof {
                let ghost icds: Seq<i32> = Seq::empty();
                assert(world@ == spawner_pass(w0, old(self).wave_counter, icds));
            }
            return;
        }
        let wc = if self.wave_counter < WAVE_LIMIT {
            self.wave_counter + 1
        } else {
            WAVE_LIMIT
        };
        self.wave_counter = wc;
        let ny: u64 = 4 * (wc as u64);
        let nx: u64 = 16 * (wc as u64);
        proof {
            crate::vec2::lemma_mul_bounds(nx as int, ny as int, 16_000_000, 4_000_000);
        }
        let total: u64 = nx * ny;
        let ghost mut icds: Seq<i32> = Seq::empty();
        let mut k: u64 = 0;
        while k < total
            invariant
                k <= total,
                icds.len() == k,
                1 <= wc <= WAVE_LIMIT,
                ny == 4 * (wc as u64),
                nx == 16 * (wc as u64),
                total == nx * ny,
                total == wave_total(wc),
                forall|j: int| 0 <= j < icds.len() ==> 0 <= #[trigger] icds[j] < ENEMY_ATTACK_MAX_MS,
                world@.slots == w0.slots,
                world@.pending_deletes == w0.pending_deletes,
                world@.pending_spawns == w0.pending_spawns + wave_bundles(wc, icds),
                self.wave_counter == wc,
            decreases total - k,
        {
            let ghost icds0 = icds;
            let ghost pre = world@;
            let x: u64 = k / ny;
            let y: u64 = k % ny;
            proof {
                assert((nx as int) * (ny as int) == (ny as int) * (nx as int)) by (nonlinear_arith);
                vstd::arithmetic::div_mod::lemma_multiply_divide_lt(
                    k as int,
                    ny as int,
                    nx as int,
                );
                assert(x < nx);
                assert((x as int) * 80 < (wc as int) * 1280) by (nonlinear_arith)
                    requires
                        x < 16 * (wc as u64),
                        x == x,
                ;
                vstd::arithmetic::div_mod::lemma_multiply_divide_lt(
                    (x as int) * 80,
                    wc as int,
                    1280,
                );
                assert((y as int) * 80 < (wc as int) * 320) by (nonlinear_arith)
                    requires
                        y < 4 * (wc as u64),
                        y == y,
                ;
                vstd::arithmetic::div_mod::lemma_multiply_divide_lt(
                    (y as int) * 80,
                    wc as int,
                    320,
                );
            }
            let wc64 = wc as u64;
            let px: u64 = 100 + (x * 80) / wc64;
            let py: u64 = 100 + (y * 80) / wc64;
            let size: i32 = (64u32 / wc) as i32;
            let enemy = Enemy::new(
                100,
                AttackConfig::Random(ENEMY_ATTACK_MIN_MS, ENEMY_ATTACK_MAX_MS, 3),
            );
            let mut b = Bundle::empty();
            b.position = Some(Position::new((px * 1000) as i32, (py * 1000) as i32));
            b.sprite = Some(
                Sprite {
                    spritesheet: BOSS_SPRITE_ID,
                    size: Point { x: size, y: size },
                    src_rect: Rect { x: 0, y: 0, w: 128, h: 128 },
                },
            );
            b.velocity = Some(Velocity::new(0, 0));
            b.collider = Some(
                CircleCollider {
                    radius: ENEMY_RADIUS,
                    layer: LayerMask::from_enum(Layers::Enemy),
                    collides_with: LayerMask::from_enum(Layers::Player),
                },
            );
            b.health = Some(
                Health::new(25, DeathEffect::SpawnExplosion { size: ENEMY_EXPLOSION_SIZE }),
            );
            b.damage = Some(Damage::new(5));
            b.weapon = Some(Weapon::new(-800, 500, 5));
            let icd = enemy.attack_cooldown;
            b.enemy = Some(enemy);
            proof {
                assert(b@ =~~= wave_enemy(wc, x as int, y as int, icd));
            }
            world.pending_spawns.push(b);
            proof {
                assert(world@.pending_spawns =~= pre.pending_spawns.push(b@));
                icds = icds.push(icd);
                assert(icds.drop_last() =~= icds0);
                assert((icds.len() - 1) as int == k as int);
                assert(ny as int == wave_height(wc));
                assert(x as int == (icds.len() - 1) as int / wave_height(wc));
                assert(y as int == (icds.len() - 1) as int % wave_height(wc));
                assert(icds.last() == icd);
                assert(b@ == wave_enemy(
                    wc,
                    (icds.len() - 1) as int / wave_height(wc),
                    (icds.len() - 1) as int % wave_height(wc),
                    icds.last(),
                ));
                assert(wave_bundles(wc, icds) == wave_bundles(wc, icds0).push(
                    wave_enemy(
                        wc,
                        (icds.len() - 1) as int / wave_height(wc),
                        (icds.len() - 1) as int % wave_height(wc),
                        icds.last(),
                    ),
                ));
                assert(world@.pending_spawns =~= w0.pending_spawns + wave_bundles(wc, icds));
            }
            k = k + 1;
        }
        proof {
            assert(wave_icds_ok(wc, icds));
            assert(world@ =~~= spawner_pass(w0, old(self).wave_counter, icds));
        }
    }
}

} // verus!
