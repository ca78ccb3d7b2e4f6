use vstd::prelude::*;

use crate::cursor::Viewport;
use crate::frame::Tint;
use crate::life::CellGrid;

verus! {

/// The cell that the display pixel `(px, py)` of `v` shows, by nearest
/// sampling: each axis scaled from the view's size to the grid's.
pub open spec fn source_cell(g: CellGrid, v: Viewport, px: int, py: int) -> (int, int) {
    (px * g.grid_width() / (v.width as int), py * g.grid_height() / (v.height as int))
}

/// Colour of a display pixel: a live cell shows the tint's colour, a dead
/// one black; the pixel is opaque either way.
pub open spec fn pixel_color(alive: bool, tint: Tint) -> Tint {
    if alive {
        Tint { r: tint.r, g: tint.g, b: tint.b, a: 255 }
    } else {
        Tint { r: 0, g: 0, b: 0, a: 255 }
    }
}

/// Liveness of the cell that the display pixel `(px, py)` of `v` shows.
pub fn sample_cell(g: &CellGrid, v: Viewport, px: u32, py: u32) -> (r: bool)
    requires
        g.wf(),
        px < v.width,
        py < v.height,
    ensures
        r == g.alive(source_cell(*g, v, px as int, py as int).0, source_cell(*g, v, px as int, py as int).1),
        g.grid_width() > 0 ==> 0 <= source_cell(*g, v, px as int, py as int).0 < g.grid_width(),
        g.grid_height() > 0 ==> 0 <= source_cell(*g, v, px as int, py as int).1 < g.grid_height(),
{
    let w = g.width() as u64;
    let h = g.height() as u64;
    proof {
        lemma_scaled_below(px as int, v.width as int, w as int);
        lemma_scaled_below(py as int, v.height as int, h as int);
    }
    let cx = (px as u64) * w / (v.width as u64);
    let cy = (py as u64) * h / (v.height as u64);
    g.get(cx as usize, cy as usize)
}

/// Colour of the display pixel `(px, py)` of `v` for the grid `g` under `tint`.
pub fn composite_pixel(g: &CellGrid, v: Viewport, tint: Tint, px: u32, py: u32) -> (r: Tint)
    requires
        g.wf(),
        px < v.width,
        py < v.height,
    ensures
        r == pixel_color(
            g.alive(source_cell(*g, v, px as int, py as int).0, source_cell(*g, v, px as int, py as int).1),
            tint,
        ),
{
    if sample_cell(g, v, px, py) {
        Tint { r: tint.r, g: tint.g, b: tint.b, a: 255 }
    } else {
        Tint { r: 0, g: 0, b: 0, a: 255 }
    }
}

/// A coordinate below `n`, scaled by `m / n`, stays below `m`, and the
/// product fits in 64 bits.
proof fn lemma_scaled_below(p: int, n: int, m: int)
    requires
        0 <= p < n,
        n <= u32::MAX,
        0 <= m <= u32::MAX,
    ensures
        0 <= p * m <= u64::MAX,
        0 <= p * m / n,
        m > 0 ==> p * m / n < m,
        m == 0 ==> p * m / n == 0,
{
    assert(0 <= p * m <= u64::MAX) by (nonlinear_arith)
        requires
            0 <= p < n,
            n <= u32::MAX,
            0 <= m <= u32::MAX,
    ;
    assert(0 <= p * m / n) by (nonlinear_arith)
        requires
            0 <= p * m,
            0 < n,
    ;
    if m > 0 {
        assert(p * m < n * m) by (nonlinear_arith)
            requires
                0 <= p < n,
                m > 0,
        ;
        assert(p * m / n < m) by (nonlinear_arith)
            requires
                0 <= p * m < n * m,
                n > 0,
        ;
    } else {
        assert(p * m == 0);
    }
}

} // verus!
