//! The capability contract for "a position in a binary grid that can test a
//! pixel, move, and detect edges", independent of the concrete grid
//! representation.  Tracing code written against this trait stays decoupled
//! from the storage of the grid, so alternate backends (downsampled or
//! virtual grids) can stand in without touching the tracing logic.

use vstd::prelude::*;
use crate::bitmatrix_cursor::{BitMatrixCursor, spec_probe_from, spec_value_from};
use crate::direction::Direction;
use crate::matrix::Matrix;
use crate::step_result::StepResult;
use crate::value::Value;

verus! {

pub trait BitMatrixCursorTrait: Sized {
    /// The binary grid the cursor walks.
    spec fn view_img(&self) -> Matrix;

    /// The cursor's position.
    spec fn view_pos(&self) -> (int, int);

    /// The cursor's heading.
    spec fn view_dir(&self) -> Direction;

    /// The grid is well formed and the cursor stands on it.
    open spec fn view_wf(&self) -> bool {
        self.view_img().wf() && self.view_img().in_bounds(self.view_pos().0, self.view_pos().1)
    }

    /// Peeks at the cell `fwd` ahead and `side` to the right, without
    /// mutating state.
    fn probe(&self, fwd: i64, side: i64) -> (r: Value)
        requires
            self.view_wf(),
            -0x100000 <= fwd <= 0x100000,
            -0x100000 <= side <= 0x100000,
        ensures
            r == spec_value_from(
                self.view_img(),
                self.view_pos(),
                self.view_dir(),
                fwd as int,
                side as int,
            ),
    ;

    /// Whether a black/white transition lies between the probed cell and the
    /// next one along the heading.
    fn transition_at(&self, fwd: i64, side: i64) -> (r: bool)
        requires
            self.view_wf(),
            -0x100000 <= fwd < 0x100000,
            -0x100000 <= side <= 0x100000,
        ensures
            r == ({
                let v1 = spec_value_from(
                    self.view_img(),
                    self.view_pos(),
                    self.view_dir(),
                    fwd as int,
                    side as int,
                );
                let v2 = spec_value_from(
                    self.view_img(),
                    self.view_pos(),
                    self.view_dir(),
                    fwd as int + 1,
                    side as int,
                );
                v1 != Value::Invalid && v2 != Value::Invalid && v1 != v2
            }),
    ;

    /// Advances one cell along the heading, or reports `OutOfBounds` and
    /// stays put when the move would leave the grid.
    fn advance(&mut self) -> (r: StepResult)
        requires
            old(self).view_wf(),
        ensures
            final(self).view_wf(),
            final(self).view_img() == old(self).view_img(),
            final(self).view_dir() == old(self).view_dir(),
            ({
                let np = spec_probe_from(old(self).view_pos(), old(self).view_dir(), 1, 0);
                if old(self).view_img().in_bounds(np.0, np.1) {
                    r == StepResult::Continue && final(self).view_pos() == np
                } else {
                    r == StepResult::OutOfBounds && final(self).view_pos() == old(self).view_pos()
                }
            }),
    ;

    /// Rotates the heading in place by `eighths` clockwise eighth-turns.
    fn rotate(&mut self, eighths: i8)
        requires
            old(self).view_wf(),
        ensures
            final(self).view_wf(),
            final(self).view_img() == old(self).view_img(),
            final(self).view_pos() == old(self).view_pos(),
            final(self).view_dir() == old(self).view_dir().spec_turn(eighths as int),
    ;
}

impl<'a> BitMatrixCursorTrait for BitMatrixCursor<'a> {
    open spec fn view_img(&self) -> Matrix {
        self.spec_img()
    }

    open spec fn view_pos(&self) -> (int, int) {
        self.spec_pos()
    }

    open spec fn view_dir(&self) -> Direction {
        self.spec_dir()
    }

    fn probe(&self, fwd: i64, side: i64) -> (r: Value) {
        self.value_at(fwd, side)
    }

    fn transition_at(&self, fwd: i64, side: i64) -> (r: bool) {
        self.edge_at(fwd, side)
    }

    fn advance(&mut self) -> (r: StepResult) {
        self.step()
    }

    fn rotate(&mut self, eighths: i8) {
        let d = self.direction().turn(eighths);
        self.set_direction(d);
    }
}

} // verus!
