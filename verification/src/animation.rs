//! Spritesheet animation: advances a frame index on a timer and moves the
//! sprite's source region across the sheet.

use vstd::prelude::*;

use crate::components::Rect;
use crate::components::Sprite;
use crate::resources::DeltaTime;
use crate::vec2::clamp_to_i32;
use crate::vec2::lemma_mul_bounds;
use crate::vec2::sat32;
use crate::world::BundleV;
use crate::world::SlotV;
use crate::world::World;
use crate::world::WorldV;

verus! {

/// Clamps an unsigned 128-bit value to the `i32` range.
pub fn clamp_u128_to_i32(v: u128) -> (r: i32)
    ensures
        r as int == sat32(v as int),
{
    if v > i32::MAX as u128 {
        i32::MAX
    } else {
        v as i32
    }
}

/// Animation state: frame duration in milliseconds, the sheet's grid shape,
/// the time accumulated toward the next frame, and the current frame index.
#[derive(Debug, Copy, Clone, PartialEq, Eq, Structural)]
pub struct Animation {
    pub time_per_frame: i32,
    pub sheet_columns: u32,
    pub sheet_rows: u32,
    pub internal_counter: i32,
    pub internal_index: u64,
}

/// The frame index after one advance: back to zero once every cell of the
/// sheet has been passed, otherwise one further.
pub open spec fn next_frame_index(a: Animation) -> u64 {
    if a.internal_index as int >= a.sheet_columns as int * a.sheet_rows as int {
        0u64
    } else {
        (a.internal_index + 1) as u64
    }
}

/// One animation tick: accumulate elapsed time; once it exceeds the frame
/// duration, subtract the duration, advance the frame index, and (when the
/// sheet has at least one column) point the sprite region at the new cell.
/// Additions saturate at the `i32` bounds.
pub open spec fn animation_step(a: Animation, dt: i32, rect: Rect) -> (Animation, Rect) {
    let counter = sat32(a.internal_counter + dt);
    if counter > a.time_per_frame {
        let counter2 = sat32(counter - a.time_per_frame);
        let idx = next_frame_index(a);
        let a2 = Animation {
            internal_counter: counter2 as i32,
            internal_index: idx,
            ..a
        };
        if a.sheet_columns > 0 {
            let row = idx as int % a.sheet_columns as int;
            let col = idx as int / a.sheet_columns as int;
            let rect2 = Rect {
                x: sat32(row * rect.h) as i32,
                y: sat32(col * rect.w) as i32,
                ..rect
            };
            (a2, rect2)
        } else {
            (a2, rect)
        }
    } else {
        (Animation { internal_counter: counter as i32, ..a }, rect)
    }
}

impl Animation {
    pub fn new(fps: u32, sheet_columns: u32, sheet_rows: u32) -> (r: Animation)
        requires
            fps >= 1,
        ensures
            r == (Animation {
                time_per_frame: (1000int / fps as int) as i32,
                sheet_columns,
                sheet_rows,
                internal_counter: 0i32,
                internal_index: 0u64,
            }),
    {
        Animation {
            time_per_frame: (1000u32 / fps) as i32,
            sheet_columns,
            sheet_rows,
            internal_counter: 0,
            internal_index: 0,
        }
    }

    /// Advances the animation by the elapsed time, updating the sprite's
    /// source region in place.
    pub fn update(&mut self, delta_time: i32, sprite_src: &mut Rect)
        ensures
            *final(self) == animation_step(*old(self), delta_time, *old(sprite_src)).0,
            *final(sprite_src) == animation_step(*old(self), delta_time, *old(sprite_src)).1,
    {
        let counter = clamp_to_i32(self.internal_counter as i64 + delta_time as i64);
        if counter > self.time_per_frame {
            let counter2 = clamp_to_i32(counter as i64 - self.time_per_frame as i64);
            proof {
                lemma_mul_bounds(
                    self.sheet_columns as int,
                    self.sheet_rows as int,
                    0xffff_ffff,
                    0xffff_ffff,
                );
            }
            let total: u64 = (self.sheet_columns as u64) * (self.sheet_rows as u64);
            let idx: u64 = if self.internal_index >= total {
                0
            } else {
                self.internal_index + 1
            };
            self.internal_counter = counter2;
            self.internal_index = idx;
            if self.sheet_columns > 0 {
                let columns = self.sheet_columns as u64;
                let row: u64 = idx % columns;
                let col: u64 = idx / columns;
                proof {
                    lemma_mul_bounds(row as int, sprite_src.h as int, u64::MAX as int, u32::MAX as int);
                    lemma_mul_bounds(col as int, sprite_src.w as int, u64::MAX as int, u32::MAX as int);
                }
                sprite_src.x = clamp_u128_to_i32((row as u128) * (sprite_src.h as u128));
                sprite_src.y = clamp_u128_to_i32((col as u128) * (sprite_src.w as u128));
            }
        } else {
            self.internal_counter = counter;
        }
    }
}

/// One animation step of a slot: a live entity with both a sprite and an
/// animation has them ticked together; every other slot is untouched.
pub open spec fn animation_slot(s: SlotV, dt: i32) -> SlotV {
    match (s.comps.sprite, s.comps.animation) {
        (Some(sp), Some(a)) => if s.alive {
            SlotV {
                comps: BundleV {
                    sprite: Some(Sprite { src_rect: animation_step(a, dt, sp.src_rect).1, ..sp }),
                    animation: Some(animation_step(a, dt, sp.src_rect).0),
                    ..s.comps
                },
                ..s
            }
        } else {
            s
        },
        _ => s,
    }
}

/// The whole animation pass: every slot stepped, the queues untouched.
pub open spec fn animation_pass(w: WorldV, dt: i32) -> WorldV {
    WorldV { slots: Seq::new(w.slots.len(), |i: int| animation_slot(w.slots[i], dt)), ..w }
}

/// The animation pass.
pub struct AnimationSystem;

impl AnimationSystem {
    pub fn run(&mut self, world: &mut World, delta_time: &DeltaTime)
        requires
            delta_time.0 >= 0,
        ensures
            final(world)@ == animation_pass(old(world)@, delta_time.0),
    {
        let dt = delta_time.0;
        let ghost w0 = world@;
        let mut i: usize = 0;
        while i < world.slots.len()
            invariant
                i <= world.slots@.len(),
                world.slots@.len() == w0.slots.len(),
                forall|j: int| 0 <= j < i ==> world@.slots[j] == animation_slot(w0.slots[j], dt),
                forall|j: int| i <= j < world.slots@.len() ==> world@.slots[j] == w0.slots[j],
                world@.pending_spawns == w0.pending_spawns,
                world@.pending_deletes == w0.pending_deletes,
            decreases world.slots@.len() - i,
        {
            let ghost pre = world@;
            let slot = &mut world.slots[i];
            if slot.alive {
                match (&slot.comps.sprite, &slot.comps.animation) {
                    (Some(sp), Some(a)) => {
                        let mut anim = *a;
                        let mut rect = sp.src_rect;
                        let sprite = *sp;
                        anim.update(dt, &mut rect);
                        slot.comps.sprite = Some(Sprite { src_rect: rect, ..sprite });
                        slot.comps.animation = Some(anim);
                    },
                    _ => {},
                }
            }
            proof {
                assert(world@.slots[i as int] =~~= animation_slot(w0.slots[i as int], dt));
                assert forall|j: int| 0 <= j < i + 1 implies world@.slots[j] == animation_slot(
                    w0.slots[j],
                    dt,
                ) by {
                    if j != i {
                        assert(world@.slots[j] == pre.slots[j]);
                        assert(pre.slots[j] == animation_slot(w0.slots[j], dt));
                    }
                }
            }
            i = i + 1;
        }
        proof {
            assert(world@ =~~= animation_pass(w0, dt));
        }
    }
}

} // verus!
