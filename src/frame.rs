use vstd::prelude::*;

use crate::cursor::CursorState;

verus! {

/// The per-frame uniform block read by the simulation pass.
///
/// `x` and `y` are the cursor in simulation (texture) space, `frame_bits` is
/// the frame counter's raw bit pattern (handed to the shader unchanged, to be
/// read there as a float), and `radius` is the draw-active field: the brush
/// radius while the primary button is held, 0 otherwise.
#[derive(Clone, Copy, Debug, PartialEq, Eq, Structural)]
pub struct FrameState {
    pub x: i64,
    pub y: i64,
    pub frame_bits: u32,
    pub radius: u32,
}

/// Whether the cell `(cx, cy)` lies strictly inside the brush disc of `f`.
/// A radius of 0 paints nothing.
pub open spec fn in_brush(f: FrameState, cx: int, cy: int) -> bool {
    (cx - f.x) * (cx - f.x) + (cy - f.y) * (cy - f.y) < (f.radius as int) * (f.radius as int)
}

/// A point whose offset along one axis reaches the radius is outside the disc.
proof fn lemma_outside_square(dx: int, dy: int, r: int)
    requires
        r >= 0,
        dx >= r || -dx >= r || dy >= r || -dy >= r,
    ensures
        !(dx * dx + dy * dy < r * r),
{
    assert(dx * dx >= 0 && dy * dy >= 0) by (nonlinear_arith);
    if dx >= r || -dx >= r {
        assert(dx * dx >= r * r) by (nonlinear_arith)
            requires
                r >= 0,
                dx >= r || -dx >= r,
        ;
    } else {
        assert(dy * dy >= r * r) by (nonlinear_arith)
            requires
                r >= 0,
                dy >= r || -dy >= r,
        ;
    }
}

impl FrameState {
    /// Tests whether the cell `(cx, cy)` is forced alive by the brush.
    pub fn covers(&self, cx: usize, cy: usize) -> (r: bool)
        requires
            cx <= u32::MAX,
            cy <= u32::MAX,
        ensures
            r == in_brush(*self, cx as int, cy as int),
    {
        let dx: i128 = cx as i128 - self.x as i128;
        let dy: i128 = cy as i128 - self.y as i128;
        let rr: i128 = self.radius as i128;
        if dx >= rr || -dx >= rr || dy >= rr || -dy >= rr {
            proof {
                lemma_outside_square(dx as int, dy as int, rr as int);
            }
            return false;
        }
        assert(0 <= dx * dx <= rr * rr && 0 <= dy * dy <= rr * rr && rr * rr <= 0x1_0000_0000_0000_0000)
            by (nonlinear_arith)
            requires
                -rr < dx < rr,
                -rr < dy < rr,
                0 <= rr <= 0xffff_ffff,
        ;
        dx * dx + dy * dy < rr * rr
    }
}

/// A colour of 8 bits per channel; the shader reads each channel as
/// `value / 255`.
#[derive(Clone, Copy, Debug, PartialEq, Eq, Structural)]
pub struct Tint {
    pub r: u8,
    pub g: u8,
    pub b: u8,
    pub a: u8,
}

/// Number of steps of the colour cycle: the tint repeats every this many frames.
pub const COLOR_CYCLE: u32 = 1000;

/// The colour of the rainbow gradient at step `i` of `n`.
pub uninterp spec fn rainbow_of(i: nat, n: nat) -> (u8, u8, u8);

/// Relies on colorous::RAINBOW.eval_rational: the gradient's colour at step
/// `i` of `n`; it panics when `n` is 0. colorous is built without its `std`
/// feature, so its sine and cosine are its own approximations made of plain
/// `f32` arithmetic, casts and bit operations, whose results Rust fixes bit
/// for bit: the colour depends on `i` and `n` alone.
#[verifier::external_body]
fn rainbow(i: usize, n: usize) -> (r: (u8, u8, u8))
    requires
        n > 0,
    ensures
        r == rainbow_of(i as nat, n as nat),
{
    let c = colorous::RAINBOW.eval_rational(i, n);
    (c.r, c.g, c.b)
}

/// The tint of a gradient colour: its three channels, with alpha 0.
pub open spec fn tint_spec(rgb: (u8, u8, u8)) -> Tint {
    Tint { r: rgb.0, g: rgb.1, b: rgb.2, a: 0 }
}

/// The tint of a gradient colour: its three channels, with alpha 0.
pub fn tint_of(rgb: (u8, u8, u8)) -> (r: Tint)
    ensures
        r == tint_spec(rgb),
{
    Tint { r: rgb.0, g: rgb.1, b: rgb.2, a: 0 }
}

/// The tint of frame `frame`: the rainbow gradient at step
/// `frame % COLOR_CYCLE` of `COLOR_CYCLE`.
pub open spec fn frame_tint_spec(frame: u32) -> Tint {
    tint_spec(rainbow_of((frame % COLOR_CYCLE) as nat, COLOR_CYCLE as nat))
}

/// The tint of frame `frame`, cycling through the rainbow every
/// `COLOR_CYCLE` frames.
pub fn frame_tint(frame: u32) -> (r: Tint)
    ensures
        r == frame_tint_spec(frame),
{
    let rgb = rainbow((frame % COLOR_CYCLE) as usize, COLOR_CYCLE as usize);
    tint_of(rgb)
}

/// The frame state packed from `cursor`: its position moved to simulation
/// space of a `width` by `height` grid (origin shifted by half the grid, y
/// turned downward), the frame counter's bits, and the brush radius while
/// the button is held.
pub open spec fn packed(cursor: CursorState, width: u32, height: u32, frame: u32, pressed: bool) -> FrameState {
    FrameState {
        x: (cursor.pos.x + width / 2) as i64,
        y: (height / 2 - cursor.pos.y) as i64,
        frame_bits: frame,
        radius: if pressed { cursor.size } else { 0 },
    }
}

/// Packs the per-frame state for a `width` by `height` grid.
pub fn pack_frame(cursor: &CursorState, width: u32, height: u32, frame: u32, pressed: bool) -> (r: FrameState)
    requires
        cursor.pos.x + width / 2 <= i64::MAX,
        height / 2 - cursor.pos.y <= i64::MAX,
    ensures
        r == packed(*cursor, width, height, frame, pressed),
{
    FrameState {
        x: cursor.pos.x + (width / 2) as i64,
        y: (height / 2) as i64 - cursor.pos.y,
        frame_bits: frame,
        radius: if pressed { cursor.size } else { 0 },
    }
}

/// The frame field holds the counter's bits unchanged, so two different
/// counters give frame fields that differ bit for bit, whatever the cursors,
/// grid sizes and button states of the two frames.
pub proof fn lemma_frame_bits_distinct(
    c1: CursorState,
    w1: u32,
    h1: u32,
    a: u32,
    p1: bool,
    c2: CursorState,
    w2: u32,
    h2: u32,
    b: u32,
    p2: bool,
)
    requires
        a != b,
    ensures
        packed(c1, w1, h1, a, p1).frame_bits == a,
        packed(c1, w1, h1, a, p1).frame_bits != packed(c2, w2, h2, b, p2).frame_bits,
{
}

} // verus!
