use vstd::prelude::*;

use crate::cursor::{CursorState, Viewport};
use crate::frame::{frame_tint, frame_tint_spec, pack_frame, packed, FrameState, Tint};

verus! {

/// Width of the simulation grid, in cells.
pub const WIDTH: u32 = 1600;

/// Height of the simulation grid, in cells.
pub const HEIGHT: u32 = 900;

/// The uniforms of the simulation pass: the frame state, the tint of the
/// frame, and the size of the view it is shown in.
#[derive(Clone, Copy, Debug, PartialEq, Eq, Structural)]
pub struct LifeMaterial {
    pub info: FrameState,
    pub draw_color: Tint,
    pub viewport: Viewport,
}

impl LifeMaterial {
    /// All uniforms zero.
    pub fn new() -> (r: LifeMaterial)
        ensures
            r.info == (FrameState { x: 0, y: 0, frame_bits: 0, radius: 0 }),
            r.draw_color == (Tint { r: 0, g: 0, b: 0, a: 0 }),
            r.viewport == (Viewport { width: 0, height: 0 }),
    {
        LifeMaterial {
            info: FrameState { x: 0, y: 0, frame_bits: 0, radius: 0 },
            draw_color: Tint { r: 0, g: 0, b: 0, a: 0 },
            viewport: Viewport { width: 0, height: 0 },
        }
    }
}

/// Writes the state of frame `frame` into `mat`: the cursor in simulation
/// space of the `WIDTH` by `HEIGHT` grid, the brush while `pressed`, the
/// counter's bits, and the frame's tint. The view size is kept.
pub fn draw_life(mat: &mut LifeMaterial, cursor: &CursorState, frame: u32, pressed: bool)
    requires
        cursor.pos.x + WIDTH / 2 <= i64::MAX,
        HEIGHT / 2 - cursor.pos.y <= i64::MAX,
    ensures
        final(mat).info == packed(*cursor, WIDTH, HEIGHT, frame, pressed),
        final(mat).draw_color == frame_tint_spec(frame),
        final(mat).viewport == old(mat).viewport,
{
    mat.info = pack_frame(cursor, WIDTH, HEIGHT, frame, pressed);
    mat.draw_color = frame_tint(frame);
}

/// Applies the pending resize events in order: each one is read, and the
/// view size ends as the last one gives it. With no event nothing changes.
pub fn update_viewport_size(mat: &mut LifeMaterial, events: &Vec<Viewport>)
    ensures
        final(mat).info == old(mat).info,
        final(mat).draw_color == old(mat).draw_color,
        final(mat).viewport == if events@.len() == 0 {
            old(mat).viewport
        } else {
            events@.last()
        },
{
    let mut i: usize = 0;
    while i < events.len()
        invariant
            i <= events@.len(),
            mat.info == old(mat).info,
            mat.draw_color == old(mat).draw_color,
            mat.viewport == if i == 0 {
                old(mat).viewport
            } else {
                events@[i - 1]
            },
        decreases events@.len() - i,
    {
        mat.viewport = events[i];
        i = i + 1;
    }
}

} // verus!
