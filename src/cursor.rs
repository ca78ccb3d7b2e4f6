use vstd::prelude::*;

verus! {

/// Size in pixels of the host's view (a window, or a render target).
#[derive(Clone, Copy, Debug, PartialEq, Eq, Structural)]
pub struct Viewport {
    pub width: u32,
    pub height: u32,
}

/// A point in world space: the origin at the centre of the view, y up.
#[derive(Clone, Copy, Debug, PartialEq, Eq, Structural)]
pub struct WorldPoint {
    pub x: i64,
    pub y: i64,
}

/// The brush as the user last placed it: its centre in world space and its
/// radius in cells.
#[derive(Clone, Copy, Debug, PartialEq, Eq, Structural)]
pub struct CursorState {
    pub pos: WorldPoint,
    pub size: u32,
}

/// Brush radius that a new cursor starts with.
pub const DEFAULT_BRUSH_SIZE: u32 = 10;

/// Whether the pixel `(px, py)` (origin top left, y down) lies in `v`.
pub open spec fn in_viewport(v: Viewport, px: int, py: int) -> bool {
    0 <= px < v.width && 0 <= py < v.height
}

/// World point of the pixel `(px, py)` of `v`: shifted by half the view and
/// with the vertical axis turned upward.
pub open spec fn pixel_to_world(v: Viewport, px: int, py: int) -> (int, int) {
    (px - v.width / 2, v.height / 2 - py)
}

/// Maps the host pointer to world space. There is no update when the
/// pointer is absent or outside the view.
pub fn map_cursor(pointer: Option<(i64, i64)>, v: Viewport) -> (r: Option<WorldPoint>)
    ensures
        r == map_cursor_spec(pointer, v),
{
    match pointer {
        None => None,
        Some((px, py)) => {
            if px < 0 || py < 0 || px >= v.width as i64 || py >= v.height as i64 {
                None
            } else {
                Some(WorldPoint { x: px - (v.width / 2) as i64, y: (v.height / 2) as i64 - py })
            }
        },
    }
}

impl CursorState {
    /// A cursor at the world origin with the default brush radius.
    pub fn new() -> (r: CursorState)
        ensures
            r.pos == (WorldPoint { x: 0, y: 0 }),
            r.size == DEFAULT_BRUSH_SIZE,
    {
        CursorState { pos: WorldPoint { x: 0, y: 0 }, size: DEFAULT_BRUSH_SIZE }
    }
}

/// Tracks the pointer: where it maps into world space the cursor moves there,
/// else the cursor stays. Returns the point the cursor moved to, if any.
pub fn draw_cursor(cursor: &mut CursorState, pointer: Option<(i64, i64)>, v: Viewport) -> (r:
    Option<WorldPoint>)
    ensures
        r == map_cursor_spec(pointer, v),
        final(cursor).size == old(cursor).size,
        final(cursor).pos == match r {
            Some(p) => p,
            None => old(cursor).pos,
        },
{
    let r = map_cursor(pointer, v);
    if let Some(p) = r {
        cursor.pos = p;
    }
    r
}

/// The world point of the pointer, or `None` when it is absent or outside
/// the view.
pub open spec fn map_cursor_spec(pointer: Option<(i64, i64)>, v: Viewport) -> Option<WorldPoint> {
    match pointer {
        None => None,
        Some((px, py)) => if in_viewport(v, px as int, py as int) {
            Some(
                WorldPoint {
                    x: pixel_to_world(v, px as int, py as int).0 as i64,
                    y: pixel_to_world(v, px as int, py as int).1 as i64,
                },
            )
        } else {
            None
        },
    }
}

/// The pixel at the centre of the view maps to the world origin.
pub proof fn lemma_center_maps_to_origin(v: Viewport)
    requires
        v.width > 0,
        v.height > 0,
    ensures
        map_cursor_spec(Some(((v.width / 2) as i64, (v.height / 2) as i64)), v) == Some(
            WorldPoint { x: 0, y: 0 },
        ),
{
}

/// A pointer outside the view, or none at all, leaves the cursor where it was.
pub proof fn lemma_outside_keeps_cursor(pointer: Option<(i64, i64)>, v: Viewport)
    requires
        match pointer {
            None => true,
            Some((px, py)) => !in_viewport(v, px as int, py as int),
        },
    ensures
        map_cursor_spec(pointer, v) is None,
{
}

} // verus!
