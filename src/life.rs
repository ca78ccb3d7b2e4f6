use vstd::prelude::*;

use crate::frame::{in_brush, FrameState};

verus! {

/// The Life rule: a live cell survives with two or three live neighbours,
/// a dead cell is born with exactly three; every other cell is dead next.
pub open spec fn life_rule(alive: bool, neighbors: int) -> bool {
    if alive {
        neighbors == 2 || neighbors == 3
    } else {
        neighbors == 3
    }
}

/// Next liveness of one cell from its current liveness and its number of
/// live neighbours.
pub fn next_alive(alive: bool, neighbors: u8) -> (r: bool)
    ensures
        r == life_rule(alive, neighbors as int),
{
    if alive {
        neighbors == 2 || neighbors == 3
    } else {
        neighbors == 3
    }
}

/// One generation of the automaton: `width` by `height` cells, row by row,
/// `true` for a live cell. Cells outside the grid count as dead.
pub struct CellGrid {
    pub(crate) width: usize,
    pub(crate) height: usize,
    pub(crate) cells: Vec<bool>,
}

/// 1 for a live cell, 0 for a dead one.
pub open spec fn bit(b: bool) -> int {
    if b {
        1
    } else {
        0
    }
}

/// Row-major position of `(x, y)` in a grid `width` cells wide.
pub open spec fn index_of(width: int, x: int, y: int) -> int {
    y * width + x
}

proof fn lemma_index_in_range(width: int, height: int, x: int, y: int)
    requires
        0 <= x < width,
        0 <= y < height,
    ensures
        0 <= y * width <= index_of(width, x, y) < width * height,
{
    assert(0 <= y * width <= y * width + x < width * height) by (nonlinear_arith)
        requires
            0 <= x < width,
            0 <= y < height,
    ;
}

impl CellGrid {
    pub open(crate) spec fn grid_width(&self) -> nat {
        self.width as nat
    }

    pub open(crate) spec fn grid_height(&self) -> nat {
        self.height as nat
    }

    /// The cells are exactly `width * height`, a count that fits in `usize`, and each coordinate fits in 32 bits.
    pub open(crate) spec fn wf(&self) -> bool {
        &&& self.cells@.len() == self.width * self.height
        &&& self.width * self.height <= usize::MAX
        &&& self.width <= u32::MAX
        &&& self.height <= u32::MAX
    }

    /// Liveness of the cell `(x, y)`; false outside the grid.
    pub open(crate) spec fn alive(&self, x: int, y: int) -> bool {
        if 0 <= x < self.width && 0 <= y < self.height {
            self.cells@[index_of(self.width as int, x, y)]
        } else {
            false
        }
    }

    /// Number of live cells among the eight around `(x, y)`.
    pub open(crate) spec fn live_neighbors(&self, x: int, y: int) -> int {
        bit(self.alive(x - 1, y - 1)) + bit(self.alive(x, y - 1)) + bit(self.alive(x + 1, y - 1))
            + bit(self.alive(x - 1, y)) + bit(self.alive(x + 1, y))
            + bit(self.alive(x - 1, y + 1)) + bit(self.alive(x, y + 1)) + bit(self.alive(x + 1, y + 1))
    }

    /// The cell `(x, y)` of the generation after `self` under the brush of `f`:
    /// forced alive inside the brush, else given by the Life rule.
    pub open(crate) spec fn next_cell(&self, f: FrameState, x: int, y: int) -> bool {
        in_brush(f, x, y) || life_rule(self.alive(x, y), self.live_neighbors(x, y))
    }

    /// Whether `other` is the generation after `self` under the brush of `f`.
    pub open(crate) spec fn steps_to(&self, f: FrameState, other: &CellGrid) -> bool {
        &&& other.width == self.width
        &&& other.height == self.height
        &&& forall|x: int, y: int|
            0 <= x < self.width && 0 <= y < self.height ==> #[trigger] other.alive(x, y)
                == self.next_cell(f, x, y)
    }

    /// An all-dead grid of the given size.
    pub fn new(width: usize, height: usize) -> (r: CellGrid)
        requires
            width <= u32::MAX,
            height <= u32::MAX,
            width * height <= usize::MAX,
        ensures
            r.wf(),
            r.grid_width() == width,
            r.grid_height() == height,
            forall|x: int, y: int| !#[trigger] r.alive(x, y),
    {
        let n: usize = width * height;
        let mut cells: Vec<bool> = Vec::with_capacity(n);
        let mut i: usize = 0;
        while i < n
            invariant
                i <= n,
                cells@.len() == i,
                forall|j: int| 0 <= j < i ==> !#[trigger] cells@[j],
            decreases n - i,
        {
            cells.push(false);
            i = i + 1;
        }
        let r = CellGrid { width, height, cells };
        assert forall|x: int, y: int| !#[trigger] r.alive(x, y) by {
            if 0 <= x < width && 0 <= y < height {
                lemma_index_in_range(width as int, height as int, x, y);
            }
        }
        r
    }

    pub fn width(&self) -> (r: usize)
        ensures
            r == self.grid_width(),
    {
        self.width
    }

    pub fn height(&self) -> (r: usize)
        ensures
            r == self.grid_height(),
    {
        self.height
    }

    /// Liveness of the cell `(x, y)`; false outside the grid.
    pub fn get(&self, x: usize, y: usize) -> (r: bool)
        requires
            self.wf(),
        ensures
            r == self.alive(x as int, y as int),
    {
        if x < self.width && y < self.height {
            proof {
                lemma_index_in_range(self.width as int, self.height as int, x as int, y as int);
            }
            self.cells[y * self.width + x]
        } else {
            false
        }
    }

    /// Sets the cell `(x, y)`, which must lie in the grid; the others keep
    /// their state.
    pub fn set(&mut self, x: usize, y: usize, v: bool)
        requires
            old(self).wf(),
            x < old(self).grid_width(),
            y < old(self).grid_height(),
        ensures
            final(self).wf(),
            final(self).grid_width() == old(self).grid_width(),
            final(self).grid_height() == old(self).grid_height(),
            forall|i: int, j: int| #[trigger] final(self).alive(i, j)
                == if i == x && j == y { v } else { old(self).alive(i, j) },
    {
        proof {
            lemma_index_in_range(self.width as int, self.height as int, x as int, y as int);
        }
        let k: usize = y * self.width + x;
        self.cells.set(k, v);
        proof {
            assert forall|i: int, j: int| #[trigger] self.alive(i, j)
                == if i == x && j == y { v } else { old(self).alive(i, j) } by {
                if 0 <= i < self.width && 0 <= j < self.height {
                    lemma_index_in_range(self.width as int, self.height as int, i, j);
                    if index_of(self.width as int, i, j) == index_of(self.width as int, x as int, y as int) {
                        lemma_index_distinct(self.width as int, i, j, x as int, y as int);
                    }
                }
            }
        }
    }

    /// Writes into `next` the generation after `self`: every cell inside the
    /// brush of `f` is alive, every other one follows the Life rule. `self` is
    /// only read, `next` only written.
    pub fn step_into(&self, f: &FrameState, next: &mut CellGrid)
        requires
            self.wf(),
            old(next).wf(),
            old(next).grid_width() == self.grid_width(),
            old(next).grid_height() == self.grid_height(),
        ensures
            final(next).wf(),
            self.steps_to(*f, final(next)),
    {
        let mut y: usize = 0;
        while y < self.height
            invariant
                self.wf(),
                next.wf(),
                next.width == self.width,
                next.height == self.height,
                y <= self.height,
                forall|i: int, j: int|
                    0 <= i < self.width && 0 <= j < y ==> #[trigger] next.alive(i, j)
                        == self.next_cell(*f, i, j),
            decreases self.height - y,
        {
            let mut x: usize = 0;
            while x < self.width
                invariant
                    self.wf(),
                    next.wf(),
                    next.width == self.width,
                    next.height == self.height,
                    y < self.height,
                    x <= self.width,
                    forall|i: int, j: int|
                        0 <= i < self.width && (0 <= j < y || (j == y && 0 <= i < x))
                            ==> #[trigger] next.alive(i, j) == self.next_cell(*f, i, j),
                decreases self.width - x,
            {
                let alive = self.get(x, y);
                let n = self.count_neighbors(x, y);
                let v = f.covers(x, y) || next_alive(alive, n);
                next.set(x, y, v);
                x = x + 1;
            }
            y = y + 1;
        }
    }

    /// Liveness of the neighbour of `(x, y)` at offset `(dx - 1, dy - 1)`,
    /// as 0 or 1.
    fn neighbor_bit(&self, x: usize, y: usize, dx: usize, dy: usize) -> (r: u8)
        requires
            self.wf(),
            x < self.width,
            y < self.height,
            dx < 3,
            dy < 3,
        ensures
            r as int == bit(self.alive(x + dx - 1, y + dy - 1)),
    {
        if (dx == 0 && x == 0) || (dy == 0 && y == 0) {
            return 0;
        }
        if (dx == 2 && x + 1 >= self.width) || (dy == 2 && y + 1 >= self.height) {
            return 0;
        }
        if self.get(x + dx - 1, y + dy - 1) {
            1
        } else {
            0
        }
    }

    /// Number of live cells among the eight around `(x, y)`.
    pub fn count_neighbors(&self, x: usize, y: usize) -> (r: u8)
        requires
            self.wf(),
            x < self.grid_width(),
            y < self.grid_height(),
        ensures
            r as int == self.live_neighbors(x as int, y as int),
    {
        self.neighbor_bit(x, y, 0, 0) + self.neighbor_bit(x, y, 1, 0) + self.neighbor_bit(x, y, 2, 0)
            + self.neighbor_bit(x, y, 0, 1) + self.neighbor_bit(x, y, 2, 1)
            + self.neighbor_bit(x, y, 0, 2) + self.neighbor_bit(x, y, 1, 2)
            + self.neighbor_bit(x, y, 2, 2)
    }
}

/// A brush of radius 0 covers no cell.
pub proof fn lemma_no_brush(f: FrameState, x: int, y: int)
    requires
        f.radius == 0,
    ensures
        !in_brush(f, x, y),
{
    assert((x - f.x) * (x - f.x) >= 0 && (y - f.y) * (y - f.y) >= 0) by (nonlinear_arith);
}

/// Whether no cell of `g` is alive.
pub open(crate) spec fn all_dead(g: CellGrid) -> bool {
    forall|x: int, y: int| !#[trigger] g.alive(x, y)
}

/// Whether the live cells of `g` are exactly the 2 by 2 block whose top left
/// cell is `(bx, by)`.
pub open(crate) spec fn is_block(g: CellGrid, bx: int, by: int) -> bool {
    forall|x: int, y: int| #[trigger] g.alive(x, y) == (bx <= x <= bx + 1 && by <= y <= by + 1)
}

/// Whether `gens` is a run of the simulation: each grid is followed by the
/// generation after it under the frame of the same index, with no brush.
pub open(crate) spec fn unbrushed_run(gens: Seq<CellGrid>, frames: Seq<FrameState>) -> bool {
    &&& gens.len() == frames.len() + 1
    &&& forall|k: int| 0 <= k < frames.len() ==> (#[trigger] frames[k]).radius == 0
    &&& forall|k: int| 0 <= k < frames.len() ==> (#[trigger] gens[k]).steps_to(frames[k], &gens[k + 1])
}

proof fn lemma_dead_step(g: CellGrid, f: FrameState, h: CellGrid)
    requires
        f.radius == 0,
        all_dead(g),
        g.steps_to(f, &h),
    ensures
        all_dead(h),
{
    assert forall|x: int, y: int| !#[trigger] h.alive(x, y) by {
        if 0 <= x < g.width && 0 <= y < g.height {
            lemma_no_brush(f, x, y);
            assert(!g.alive(x - 1, y - 1) && !g.alive(x, y - 1) && !g.alive(x + 1, y - 1));
            assert(!g.alive(x - 1, y) && !g.alive(x, y) && !g.alive(x + 1, y));
            assert(!g.alive(x - 1, y + 1) && !g.alive(x, y + 1) && !g.alive(x + 1, y + 1));
        }
    }
}

/// An all-dead grid stays all dead through any number of steps without brush.
pub proof fn lemma_dead_grid_stays_dead(gens: Seq<CellGrid>, frames: Seq<FrameState>)
    requires
        unbrushed_run(gens, frames),
        all_dead(gens[0]),
    ensures
        forall|k: int| 0 <= k < gens.len() ==> all_dead(#[trigger] gens[k]),
    decreases frames.len(),
{
    if frames.len() > 0 {
        let n = frames.len() - 1;
        lemma_dead_grid_stays_dead(gens.take(n + 1), frames.take(n));
        assert(gens.take(n + 1)[n] == gens[n]);
        lemma_dead_step(gens[n], frames[n], gens[n + 1]);
        assert forall|k: int| 0 <= k < gens.len() implies all_dead(#[trigger] gens[k]) by {
            if k <= n {
                assert(gens.take(n + 1)[k] == gens[k]);
            }
        }
    }
}

proof fn lemma_block_step(g: CellGrid, f: FrameState, h: CellGrid, bx: int, by: int)
    requires
        f.radius == 0,
        is_block(g, bx, by),
        g.steps_to(f, &h),
    ensures
        is_block(h, bx, by),
{
    assert(g.alive(bx, by) && g.alive(bx + 1, by + 1));
    assert forall|x: int, y: int| #[trigger] h.alive(x, y) == (bx <= x <= bx + 1 && by <= y <= by + 1) by {
        if 0 <= x < g.width && 0 <= y < g.height {
            lemma_no_brush(f, x, y);
            assert(g.alive(x - 1, y - 1) == (bx <= x - 1 <= bx + 1 && by <= y - 1 <= by + 1));
            assert(g.alive(x, y - 1) == (bx <= x <= bx + 1 && by <= y - 1 <= by + 1));
            assert(g.alive(x + 1, y - 1) == (bx <= x + 1 <= bx + 1 && by <= y - 1 <= by + 1));
            assert(g.alive(x - 1, y) == (bx <= x - 1 <= bx + 1 && by <= y <= by + 1));
            assert(g.alive(x, y) == (bx <= x <= bx + 1 && by <= y <= by + 1));
            assert(g.alive(x + 1, y) == (bx <= x + 1 <= bx + 1 && by <= y <= by + 1));
            assert(g.alive(x - 1, y + 1) == (bx <= x - 1 <= bx + 1 && by <= y + 1 <= by + 1));
            assert(g.alive(x, y + 1) == (bx <= x <= bx + 1 && by <= y + 1 <= by + 1));
            assert(g.alive(x + 1, y + 1) == (bx <= x + 1 <= bx + 1 && by <= y + 1 <= by + 1));
        }
    }
}

/// A 2 by 2 block is a still life: through any number of steps without brush
/// the live cells stay exactly that block.
pub proof fn lemma_block_is_still(gens: Seq<CellGrid>, frames: Seq<FrameState>, bx: int, by: int)
    requires
        unbrushed_run(gens, frames),
        is_block(gens[0], bx, by),
    ensures
        forall|k: int| 0 <= k < gens.len() ==> is_block(#[trigger] gens[k], bx, by),
    decreases frames.len(),
{
    if frames.len() > 0 {
        let n = frames.len() - 1;
        lemma_block_is_still(gens.take(n + 1), frames.take(n), bx, by);
        assert(gens.take(n + 1)[n] == gens[n]);
        lemma_block_step(gens[n], frames[n], gens[n + 1], bx, by);
        assert forall|k: int| 0 <= k < gens.len() implies is_block(#[trigger] gens[k], bx, by) by {
            if k <= n {
                assert(gens.take(n + 1)[k] == gens[k]);
            }
        }
    }
}

/// Two cells of one row-major grid share a position only if they are the same cell.
proof fn lemma_index_distinct(width: int, i: int, j: int, x: int, y: int)
    requires
        0 <= i < width,
        0 <= x < width,
        0 <= j,
        0 <= y,
        index_of(width, i, j) == index_of(width, x, y),
    ensures
        i == x && j == y,
{
    if j < y {
        assert(j * width + width <= y * width) by (nonlinear_arith)
            requires
                j < y,
                0 <= width,
        ;
    } else if j > y {
        assert(y * width + width <= j * width) by (nonlinear_arith)
            requires
                y < j,
                0 <= width,
        ;
    }
}

} // verus!
