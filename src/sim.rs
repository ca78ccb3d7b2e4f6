use vstd::prelude::*;

use crate::frame::FrameState;
use crate::life::CellGrid;

verus! {

/// Two cell grids of one size used in turn: each step reads the current one
/// and writes the other, which then becomes current.
pub struct LifeSim {
    current: CellGrid,
    spare: CellGrid,
}

impl LifeSim {
    /// The generation shown now.
    pub closed spec fn view_current(&self) -> CellGrid {
        self.current
    }

    /// Both grids are well formed and of one size.
    pub closed spec fn wf(&self) -> bool {
        &&& self.current.wf()
        &&& self.spare.wf()
        &&& self.current.grid_width() == self.spare.grid_width()
        &&& self.current.grid_height() == self.spare.grid_height()
    }

    /// A simulation whose current grid is `first`.
    pub fn new(first: CellGrid) -> (r: LifeSim)
        requires
            first.wf(),
        ensures
            r.wf(),
            r.view_current() == first,
    {
        let spare = CellGrid::new(first.width(), first.height());
        LifeSim { current: first, spare }
    }

    /// The generation shown now.
    pub fn current(&self) -> (r: &CellGrid)
        requires
            self.wf(),
        ensures
            *r == self.view_current(),
            r.wf(),
    {
        &self.current
    }

    /// Advances one generation under the brush of `f`.
    pub fn step(&mut self, f: &FrameState)
        requires
            old(self).wf(),
        ensures
            final(self).wf(),
            old(self).view_current().steps_to(*f, &final(self).view_current()),
    {
        self.current.step_into(f, &mut self.spare);
        core::mem::swap(&mut self.current, &mut self.spare);
    }
}

} // verus!
