//! A stateful walker over a binary grid: a position and a direction that can
//! test cells relative to its heading, advance one cell, turn in place, and
//! detect black/white transitions.
//!
//! The cursor never leaves the grid: a step that would do so is refused and
//! reported, so callers decide whether an out-of-bounds move ends a trace or
//! triggers a turn.

use vstd::prelude::*;
use crate::direction::Direction;
use crate::matrix::Matrix;
use crate::step_result::StepResult;
use crate::value::Value;

verus! {

pub struct BitMatrixCursor<'a> {
    img: &'a Matrix,
    p: (i64, i64),
    d: Direction,
}

impl<'a> BitMatrixCursor<'a> {
    pub closed spec fn spec_img(self) -> Matrix {
        *self.img
    }

    pub closed spec fn spec_pos(self) -> (int, int) {
        (self.p.0 as int, self.p.1 as int)
    }

    pub closed spec fn spec_dir(self) -> Direction {
        self.d
    }

    /// The grid is well formed and the cursor stands on it.
    pub open spec fn wf(self) -> bool {
        &&& self.spec_img().wf()
        &&& self.spec_img().in_bounds(self.spec_pos().0, self.spec_pos().1)
    }

    /// The grid position probed at `fwd` cells ahead and `side` cells to the
    /// right of the cursor's heading.
    pub open spec fn spec_probe(self, fwd: int, side: int) -> (int, int) {
        spec_probe_from(self.spec_pos(), self.spec_dir(), fwd, side)
    }

    /// The value seen at a probe: white, black, or invalid outside the grid.
    pub open spec fn spec_value_at(self, fwd: int, side: int) -> Value {
        spec_value_from(self.spec_img(), self.spec_pos(), self.spec_dir(), fwd, side)
    }

    /// Whether a black/white transition lies between the probe and the cell
    /// one further ahead: both cells on the grid and of different colour.
    pub open spec fn spec_edge_at(self, fwd: int, side: int) -> bool {
        let v1 = self.spec_value_at(fwd, side);
        let v2 = self.spec_value_at(fwd + 1, side);
        v1 != Value::Invalid && v2 != Value::Invalid && v1 != v2
    }

    /// A cursor on `img` at `(x, y)` heading `d`.
    pub fn new(img: &'a Matrix, x: i64, y: i64, d: Direction) -> (r: BitMatrixCursor<'a>)
        requires
            img.wf(),
            img.in_bounds(x as int, y as int),
        ensures
            r.wf(),
            r.spec_img() == *img,
            r.spec_pos() == (x as int, y as int),
            r.spec_dir() == d,
    {
        BitMatrixCursor { img, p: (x, y), d }
    }

    pub fn pos(&self) -> (r: (i64, i64))
        ensures
            (r.0 as int, r.1 as int) == self.spec_pos(),
    {
        self.p
    }

    pub fn direction(&self) -> (r: Direction)
        ensures
            r == self.spec_dir(),
    {
        self.d
    }

    /// Peeks at the cell `fwd` ahead and `side` to the right, without moving.
    /// The probe distance limit is a machine limit.
    pub fn value_at(&self, fwd: i64, side: i64) -> (r: Value)
        requires
            self.wf(),
            -0x100000 <= fwd <= 0x100000,
            -0x100000 <= side <= 0x100000,
        ensures
            r == self.spec_value_at(fwd as int, side as int),
    {
        let (dx, dy) = self.d.as_vector();
        let (rx, ry) = self.d.turn_right().as_vector();
        proof {
            self.img.lemma_wf_bounds();
            assert(-1 <= dx as int <= 1 && -1 <= dy as int <= 1);
            assert(-1 <= rx as int <= 1 && -1 <= ry as int <= 1);
            assert(-0x100000 <= fwd * (dx as int) <= 0x100000) by (nonlinear_arith)
                requires
                    -0x100000 <= fwd <= 0x100000,
                    -1 <= dx as int <= 1,
            ;
            assert(-0x100000 <= fwd * (dy as int) <= 0x100000) by (nonlinear_arith)
                requires
                    -0x100000 <= fwd <= 0x100000,
                    -1 <= dy as int <= 1,
            ;
            assert(-0x100000 <= side * (rx as int) <= 0x100000) by (nonlinear_arith)
                requires
                    -0x100000 <= side <= 0x100000,
                    -1 <= rx as int <= 1,
            ;
            assert(-0x100000 <= side * (ry as int) <= 0x100000) by (nonlinear_arith)
                requires
                    -0x100000 <= side <= 0x100000,
                    -1 <= ry as int <= 1,
            ;
        }
        let x: i64 = self.p.0 + fwd * (dx as i64) + side * (rx as i64);
        let y: i64 = self.p.1 + fwd * (dy as i64) + side * (ry as i64);
        Value::from_cell(self.img.get(x, y))
    }

    /// Whether the probed cell is black.
    pub fn is_black(&self, fwd: i64, side: i64) -> (r: bool)
        requires
            self.wf(),
            -0x100000 <= fwd <= 0x100000,
            -0x100000 <= side <= 0x100000,
        ensures
            r == (self.spec_value_at(fwd as int, side as int) == Value::Black),
    {
        self.value_at(fwd, side).is_black()
    }

    /// Whether the probed cell is white.
    pub fn is_white(&self, fwd: i64, side: i64) -> (r: bool)
        requires
            self.wf(),
            -0x100000 <= fwd <= 0x100000,
            -0x100000 <= side <= 0x100000,
        ensures
            r == (self.spec_value_at(fwd as int, side as int) == Value::White),
    {
        self.value_at(fwd, side).is_white()
    }

    /// Whether a black/white transition exists between the probed cell and
    /// the next cell along the heading.
    pub fn edge_at(&self, fwd: i64, side: i64) -> (r: bool)
        requires
            self.wf(),
            -0x100000 <= fwd < 0x100000,
            -0x100000 <= side <= 0x100000,
        ensures
            r == self.spec_edge_at(fwd as int, side as int),
    {
        let v1 = self.value_at(fwd, side);
        let v2 = self.value_at(fwd + 1, side);
        v1.is_valid() && v2.is_valid() && !(v1 == v2)
    }

    /// Points the heading at `d`, in place.
    pub fn set_direction(&mut self, d: Direction)
        requires
            old(self).wf(),
        ensures
            final(self).wf(),
            final(self).spec_img() == old(self).spec_img(),
            final(self).spec_pos() == old(self).spec_pos(),
            final(self).spec_dir() == d,
    {
        self.d = d;
    }

    /// Rotates the heading a quarter-turn counter-clockwise, in place.
    pub fn turn_left(&mut self)
        requires
            old(self).wf(),
        ensures
            final(self).wf(),
            final(self).spec_img() == old(self).spec_img(),
            final(self).spec_pos() == old(self).spec_pos(),
            final(self).spec_dir() == old(self).spec_dir().spec_turn(6),
    {
        self.d = self.d.turn_left();
    }

    /// Rotates the heading a quarter-turn clockwise, in place.
    pub fn turn_right(&mut self)
        requires
            old(self).wf(),
        ensures
            final(self).wf(),
            final(self).spec_img() == old(self).spec_img(),
            final(self).spec_pos() == old(self).spec_pos(),
            final(self).spec_dir() == old(self).spec_dir().spec_turn(2),
    {
        self.d = self.d.turn_right();
    }

    /// Reverses the heading, in place.
    pub fn turn_back(&mut self)
        requires
            old(self).wf(),
        ensures
            final(self).wf(),
            final(self).spec_img() == old(self).spec_img(),
            final(self).spec_pos() == old(self).spec_pos(),
            final(self).spec_dir() == old(self).spec_dir().spec_turn(4),
    {
        self.d = self.d.turn_back();
    }

    /// Advances one cell along the heading.  When the move would leave the
    /// grid nothing changes and `OutOfBounds` is reported: the cursor does
    /// not clamp silently.
    pub fn step(&mut self) -> (r: StepResult)
        requires
            old(self).wf(),
        ensures
            final(self).wf(),
            final(self).spec_img() == old(self).spec_img(),
            final(self).spec_dir() == old(self).spec_dir(),
            ({
                let np = old(self).spec_probe(1, 0);
                if old(self).spec_img().in_bounds(np.0, np.1) {
                    r == StepResult::Continue && final(self).spec_pos() == np
                } else {
                    r == StepResult::OutOfBounds && final(self).spec_pos() == old(
                        self,
                    ).spec_pos()
                }
            }),
    {
        proof {
            self.img.lemma_wf_bounds();
        }
        let (dx, dy) = self.d.as_vector();
        let nx: i64 = self.p.0 + dx as i64;
        let ny: i64 = self.p.1 + dy as i64;
        let in_grid: bool = 0 <= nx && 0 <= ny && (nx as u64) < (self.img.width() as u64) && (ny
            as u64) < (self.img.height() as u64);
        if in_grid {
            self.p = (nx, ny);
            StepResult::Continue
        } else {
            StepResult::OutOfBounds
        }
    }
}

/// The grid position probed at `fwd` cells ahead and `side` cells to the
/// right of heading `dir` from `pos`.
pub open spec fn spec_probe_from(pos: (int, int), dir: Direction, fwd: int, side: int) -> (
    int,
    int,
) {
    let dv = dir.spec_vector();
    let rv = dir.spec_turn(2).spec_vector();
    (pos.0 + fwd * dv.0 + side * rv.0, pos.1 + fwd * dv.1 + side * rv.1)
}

/// The value seen at such a probe: white, black, or invalid outside `img`.
pub open spec fn spec_value_from(
    img: Matrix,
    pos: (int, int),
    dir: Direction,
    fwd: int,
    side: int,
) -> Value {
    let q = spec_probe_from(pos, dir, fwd, side);
    if img.in_bounds(q.0, q.1) {
        Value::spec_from_cell(Some(img.spec_cell(q.0, q.1)))
    } else {
        Value::spec_from_cell(None)
    }
}

} // verus!
