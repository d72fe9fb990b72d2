//! The render query: what an external renderer needs to draw the world.
//! The simulation never draws; it only reports positions and sprites.

use vstd::prelude::*;

use crate::components::Position;
use crate::components::Sprite;
use crate::world::SlotV;
use crate::world::World;

verus! {

/// Whether a slot is drawn: live, positioned, and carrying a sprite.
pub open spec fn renderable(s: SlotV) -> bool {
    s.alive && s.comps.position is Some && s.comps.sprite is Some
}

/// What one slot contributes to the render query.
pub open spec fn render_item_of(s: SlotV) -> Seq<(Position, Sprite)> {
    match (s.comps.position, s.comps.sprite) {
        (Some(p), Some(sp)) => if s.alive {
            seq![(p, sp)]
        } else {
            Seq::empty()
        },
        _ => Seq::empty(),
    }
}

/// The whole render query, in slot order.
pub open spec fn render_items_of(slots: Seq<SlotV>) -> Seq<(Position, Sprite)>
    decreases slots.len(),
{
    if slots.len() == 0 {
        Seq::empty()
    } else {
        render_items_of(slots.drop_last()) + render_item_of(slots.last())
    }
}

/// Collects the position and sprite of every drawable entity, in slot
/// order, for an external renderer to consume after the frame's commit.
pub fn render_items(world: &World) -> (out: Vec<(Position, Sprite)>)
    ensures
        out@ == render_items_of(world@.slots),
{
    let ghost w0 = world@;
    let mut out: Vec<(Position, Sprite)> = Vec::new();
    let mut i: usize = 0;
    proof {
        assert(out@ =~= render_items_of(w0.slots.subrange(0, 0)));
    }
    while i < world.slots.len()
        invariant
            i <= world.slots@.len(),
            world@ == w0,
            out@ == render_items_of(w0.slots.subrange(0, i as int)),
        decreases world.slots@.len() - i,
    {
        let slot = &world.slots[i];
        if slot.alive {
            match (&slot.comps.position, &slot.comps.sprite) {
                (Some(p), Some(sp)) => {
                    out.push((*p, *sp));
                },
                _ => {},
            }
        }
        proof {
            assert(w0.slots.subrange(0, i as int + 1).drop_last() =~= w0.slots.subrange(
                0,
                i as int,
            ));
            assert(w0.slots.subrange(0, i as int + 1).last() == w0.slots[i as int]);
            assert(out@ =~= render_items_of(w0.slots.subrange(0, i as int + 1)));
        }
        i = i + 1;
    }
    proof {
        assert(w0.slots.subrange(0, w0.slots.len() as int) =~= w0.slots);
    }
    out
}

} // verus!
