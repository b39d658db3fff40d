//! Traces along a black/white boundary, tolerating the grid's corners by
//! turning in place, and accumulates the crossed cells into a regression
//! line.
//!
//! The tracer is a state machine driven one step at a time: ahead-black
//! turns it left along the wall, ahead-white steps it forward (keeping the
//! traced edge on its right, turning right at convex corners), leaving the
//! grid reports `OutOfBounds`, four turns in place without a step report
//! `Failed` (an isolated cell), and returning to the exact starting position
//! and heading reports `Closed`.  An explicit step budget bounds the cost on
//! pathological input: exhausting it is a reported `Failed`, never an
//! unbounded loop.

use vstd::prelude::*;
use crate::bitmatrix_cursor::{BitMatrixCursor, spec_value_from};
use crate::direction::Direction;
use crate::matrix::Matrix;
use crate::regression_line::RegressionLine;
use crate::step_result::StepResult;
use crate::value::Value;

verus! {

/// The tracer's abstract state: everything one step reads and writes.
pub struct TraceState {
    pub pos: (int, int),
    pub dir: Direction,
    pub points: Seq<(int, int)>,
    pub steps: int,
    pub turns: int,
}

/// The step relation of the tracer, as a function: what one call of
/// `trace_step` returns and leaves behind, given the grid, the starting
/// state of the trace, the budget, and the current state.
pub open spec fn spec_step_once(
    img: Matrix,
    start_pos: (int, int),
    start_dir: Direction,
    budget: int,
    st: TraceState,
) -> (StepResult, TraceState) {
    let front = spec_value_from(img, st.pos, st.dir, 1, 0);
    if st.steps >= budget {
        (StepResult::Failed, st)
    } else if front == Value::Invalid {
        (StepResult::OutOfBounds, st)
    } else if front == Value::Black {
        let nturns = if st.turns + 1 >= 4 {
            4int
        } else {
            st.turns + 1
        };
        let st2 = TraceState {
            pos: st.pos,
            dir: st.dir.spec_turn(6),
            points: st.points,
            steps: st.steps + 1,
            turns: nturns,
        };
        if st.turns + 1 >= 4 {
            (StepResult::Failed, st2)
        } else {
            (StepResult::Continue, st2)
        }
    } else {
        let np = crate::bitmatrix_cursor::spec_probe_from(st.pos, st.dir, 1, 0);
        let nd = if spec_value_from(img, np, st.dir, 0, 1) != Value::Black {
            st.dir.spec_turn(2)
        } else {
            st.dir
        };
        let st2 = TraceState {
            pos: np,
            dir: nd,
            points: st.points.push(np),
            steps: st.steps + 1,
            turns: 0,
        };
        if np == start_pos && nd == start_dir {
            (StepResult::Closed, st2)
        } else {
            (StepResult::Continue, st2)
        }
    }
}

/// The step relation iterated until it leaves `Continue`: what a whole run
/// of the tracer returns and leaves behind.  With `fuel` at least
/// `budget - st.steps + 1` the iteration always reaches a terminal outcome,
/// because every `Continue` consumes one unit of budget.
pub open spec fn spec_trace_run(
    img: Matrix,
    start_pos: (int, int),
    start_dir: Direction,
    budget: int,
    st: TraceState,
    fuel: nat,
) -> (StepResult, TraceState)
    decreases fuel,
{
    let step = spec_step_once(img, start_pos, start_dir, budget, st);
    if step.0 == StepResult::Continue && fuel > 0 {
        spec_trace_run(img, start_pos, start_dir, budget, step.1, (fuel - 1) as nat)
    } else {
        step
    }
}

/// A whole run of a fresh tracer seeded at `(sx, sy)` heading `d`: the
/// terminal outcome and the state left behind, nothing yet accumulated.
pub open spec fn spec_fresh_trace(
    img: Matrix,
    sx: int,
    sy: int,
    d: Direction,
    budget: int,
) -> (StepResult, TraceState) {
    spec_trace_run(
        img,
        (sx, sy),
        d,
        budget,
        TraceState { pos: (sx, sy), dir: d, points: Seq::empty(), steps: 0, turns: 0 },
        (budget + 1) as nat,
    )
}

pub struct EdgeTracer<'a> {
    cursor: BitMatrixCursor<'a>,
    start_pos: (i64, i64),
    start_dir: Direction,
    line: RegressionLine,
    steps: u32,
    budget: u32,
    turns: u8,
}

impl<'a> EdgeTracer<'a> {
    pub closed spec fn spec_cursor(self) -> BitMatrixCursor<'a> {
        self.cursor
    }

    pub open spec fn spec_img(self) -> Matrix {
        self.spec_cursor().spec_img()
    }

    pub open spec fn spec_pos(self) -> (int, int) {
        self.spec_cursor().spec_pos()
    }

    pub open spec fn spec_dir(self) -> Direction {
        self.spec_cursor().spec_dir()
    }

    pub closed spec fn spec_start_pos(self) -> (int, int) {
        (self.start_pos.0 as int, self.start_pos.1 as int)
    }

    pub closed spec fn spec_start_dir(self) -> Direction {
        self.start_dir
    }

    pub closed spec fn spec_line(self) -> RegressionLine {
        self.line
    }

    pub closed spec fn spec_steps(self) -> int {
        self.steps as int
    }

    pub closed spec fn spec_budget(self) -> int {
        self.budget as int
    }

    pub closed spec fn spec_turns(self) -> int {
        self.turns as int
    }

    /// The tracer's abstract state, as the step relation sees it.
    pub open spec fn spec_state(self) -> TraceState {
        TraceState {
            pos: self.spec_pos(),
            dir: self.spec_dir(),
            points: self.spec_line().spec_points(),
            steps: self.spec_steps(),
            turns: self.spec_turns(),
        }
    }

    /// The grid is small enough for the line accumulator, the budget bounds
    /// the accumulated points, and the cursor stands on the grid.
    pub open spec fn wf(self) -> bool {
        &&& self.spec_cursor().wf()
        &&& self.spec_img().spec_width() <= 1024
        &&& self.spec_img().spec_height() <= 1024
        &&& self.spec_line().wf()
        &&& self.spec_line().spec_points().len() <= self.spec_steps()
        &&& self.spec_steps() <= self.spec_budget()
        &&& self.spec_budget() <= 4096
        &&& 0 <= self.spec_turns() <= 4
    }

    /// A tracer at `(x, y)` heading `d`, with a step budget.  The grid-size
    /// and budget limits keep every accumulated point within the regression
    /// line's exact range.
    pub fn new(img: &'a Matrix, x: i64, y: i64, d: Direction, budget: u32) -> (r: EdgeTracer<'a>)
        requires
            img.wf(),
            img.in_bounds(x as int, y as int),
            img.spec_width() <= 1024,
            img.spec_height() <= 1024,
            budget <= 4096,
        ensures
            r.wf(),
            r.spec_img() == *img,
            r.spec_pos() == (x as int, y as int),
            r.spec_dir() == d,
            r.spec_start_pos() == (x as int, y as int),
            r.spec_start_dir() == d,
            r.spec_line().spec_points().len() == 0,
            r.spec_steps() == 0,
            r.spec_turns() == 0,
            r.spec_budget() == budget,
    {
        EdgeTracer {
            cursor: BitMatrixCursor::new(img, x, y, d),
            start_pos: (x, y),
            start_dir: d,
            line: RegressionLine::new(),
            steps: 0,
            budget,
            turns: 0,
        }
    }

    /// Consumes the tracer, handing its accumulated line to the caller.
    pub fn into_line(self) -> (r: RegressionLine)
        ensures
            r == self.spec_line(),
    {
        self.line
    }

    /// The regression line accumulated along the traced edge.
    pub fn line(&self) -> (r: &RegressionLine)
        ensures
            *r == self.spec_line(),
    {
        &self.line
    }

    /// How many steps the trace has taken.
    pub fn steps(&self) -> (r: u32)
        ensures
            r == self.spec_steps(),
    {
        self.steps
    }

    /// The cursor's position.
    pub fn pos(&self) -> (r: (i64, i64))
        ensures
            (r.0 as int, r.1 as int) == self.spec_pos(),
    {
        self.cursor.pos()
    }

    /// The cursor's heading.
    pub fn direction(&self) -> (r: Direction)
        ensures
            r == self.spec_dir(),
    {
        self.cursor.direction()
    }

    /// One step of the trace.  The decision depends only on the cell ahead
    /// and, after a move, the cell on the right:
    ///
    /// - budget exhausted: `Failed`, nothing changes;
    /// - ahead off-grid: `OutOfBounds`, nothing changes;
    /// - ahead black: turn left in place; the fourth consecutive turn is
    ///   `Failed` (no consistent move exists), else `Continue`;
    /// - ahead white: advance, append the entered cell to the line, and turn
    ///   right unless the cell on the right is black; back at the exact
    ///   starting position and heading it is `Closed`, else `Continue`.
    pub fn trace_step(&mut self) -> (r: StepResult)
        requires
            old(self).wf(),
        ensures
            final(self).wf(),
            final(self).spec_img() == old(self).spec_img(),
            final(self).spec_start_pos() == old(self).spec_start_pos(),
            final(self).spec_start_dir() == old(self).spec_start_dir(),
            final(self).spec_budget() == old(self).spec_budget(),
            r == StepResult::Continue ==> final(self).spec_steps() == old(self).spec_steps() + 1,
            r == spec_step_once(
                old(self).spec_img(),
                old(self).spec_start_pos(),
                old(self).spec_start_dir(),
                old(self).spec_budget(),
                old(self).spec_state(),
            ).0,
            final(self).spec_state() == spec_step_once(
                old(self).spec_img(),
                old(self).spec_start_pos(),
                old(self).spec_start_dir(),
                old(self).spec_budget(),
                old(self).spec_state(),
            ).1,
            ({
                let front = old(self).spec_cursor().spec_value_at(1, 0);
                if old(self).spec_steps() >= old(self).spec_budget() {
                    r == StepResult::Failed && *final(self) == *old(self)
                } else if front == Value::Invalid {
                    r == StepResult::OutOfBounds && *final(self) == *old(self)
                } else if front == Value::Black {
                    &&& final(self).spec_pos() == old(self).spec_pos()
                    &&& final(self).spec_dir() == old(self).spec_dir().spec_turn(6)
                    &&& final(self).spec_line() == old(self).spec_line()
                    &&& final(self).spec_steps() == old(self).spec_steps() + 1
                    &&& final(self).spec_turns() == if old(self).spec_turns() + 1 >= 4 {
                        4int
                    } else {
                        old(self).spec_turns() + 1
                    }
                    &&& r == if old(self).spec_turns() + 1 >= 4 {
                        StepResult::Failed
                    } else {
                        StepResult::Continue
                    }
                } else {
                    let np = old(self).spec_cursor().spec_probe(1, 0);
                    &&& final(self).spec_pos() == np
                    &&& final(self).spec_line().spec_points()
                        == old(self).spec_line().spec_points().push(np)
                    &&& final(self).spec_steps() == old(self).spec_steps() + 1
                    &&& final(self).spec_turns() == 0
                    &&& final(self).spec_dir() == if spec_value_from(
                        old(self).spec_img(),
                        np,
                        old(self).spec_dir(),
                        0,
                        1,
                    ) != Value::Black {
                        old(self).spec_dir().spec_turn(2)
                    } else {
                        old(self).spec_dir()
                    }
                    &&& r == if final(self).spec_pos() == old(self).spec_start_pos()
                        && final(self).spec_dir() == old(self).spec_start_dir() {
                        StepResult::Closed
                    } else {
                        StepResult::Continue
                    }
                }
            }),
    {
        if self.steps >= self.budget {
            return StepResult::Failed;
        }
        let front = self.cursor.value_at(1, 0);
        if !front.is_valid() {
            return StepResult::OutOfBounds;
        }
        if front.is_black() {
            self.cursor.turn_left();
            self.steps = self.steps + 1;
            self.turns = if self.turns >= 3 {
                4
            } else {
                self.turns + 1
            };
            if self.turns >= 4 {
                self.turns = 4;
                return StepResult::Failed;
            }
            return StepResult::Continue;
        }
        let moved = self.cursor.step();
        proof {
            assert(moved == StepResult::Continue);
            self.cursor.spec_img().lemma_wf_bounds();
        }
        let np = self.cursor.pos();
        self.line.add_point(np.0, np.1);
        self.steps = self.steps + 1;
        self.turns = 0;
        let right = self.cursor.value_at(0, 1);
        if !right.is_black() {
            self.cursor.turn_right();
        }
        let here = self.cursor.pos();
        let d = self.cursor.direction();
        if here.0 == self.start_pos.0 && here.1 == self.start_pos.1 && d == self.start_dir {
            StepResult::Closed
        } else {
            StepResult::Continue
        }
    }

    /// Runs the trace to its end: steps until the outcome is no longer
    /// `Continue`.  `Closed` means the cursor is back at its exact starting
    /// position and heading; the step budget guarantees termination.
    #[verifier::loop_isolation(false)]
    pub fn trace(&mut self) -> (r: StepResult)
        requires
            old(self).wf(),
        ensures
            final(self).wf(),
            final(self).spec_img() == old(self).spec_img(),
            final(self).spec_start_pos() == old(self).spec_start_pos(),
            final(self).spec_start_dir() == old(self).spec_start_dir(),
            final(self).spec_budget() == old(self).spec_budget(),
            r != StepResult::Continue,
            r == StepResult::Closed ==> final(self).spec_pos() == old(self).spec_start_pos()
                && final(self).spec_dir() == old(self).spec_start_dir(),
            r == StepResult::Failed ==> final(self).spec_steps() == final(self).spec_budget()
                || final(self).spec_turns() == 4,
            r == StepResult::OutOfBounds ==> final(self).spec_cursor().spec_value_at(1, 0)
                == Value::Invalid,
            ({
                let run = spec_trace_run(
                    old(self).spec_img(),
                    old(self).spec_start_pos(),
                    old(self).spec_start_dir(),
                    old(self).spec_budget(),
                    old(self).spec_state(),
                    (old(self).spec_budget() - old(self).spec_steps() + 1) as nat,
                );
                r == run.0 && final(self).spec_state() == run.1
            }),
    {
        let ghost img0 = old(self).spec_img();
        let ghost sp = old(self).spec_start_pos();
        let ghost sd = old(self).spec_start_dir();
        let ghost budget0 = old(self).spec_budget();
        let ghost st0 = old(self).spec_state();
        let ghost fuel0 = (old(self).spec_budget() - old(self).spec_steps() + 1) as nat;
        loop
            invariant
                self.wf(),
                self.spec_img() == img0,
                self.spec_start_pos() == sp,
                self.spec_start_dir() == sd,
                self.spec_budget() == budget0,
                spec_trace_run(img0, sp, sd, budget0, st0, fuel0) == spec_trace_run(
                    img0,
                    sp,
                    sd,
                    budget0,
                    self.spec_state(),
                    (budget0 - self.spec_steps() + 1) as nat,
                ),
            decreases self.spec_budget() - self.spec_steps(),
        {
            let ghost pre = self.spec_state();
            let ghost fuel_pre = (budget0 - self.spec_steps() + 1) as nat;
            let r = self.trace_step();
            proof {
                let step = spec_step_once(img0, sp, sd, budget0, pre);
                assert(step.0 == r && step.1 == self.spec_state());
                if r == StepResult::Continue {
                    assert(fuel_pre > 0);
                    assert(spec_trace_run(img0, sp, sd, budget0, pre, fuel_pre)
                        == spec_trace_run(
                        img0,
                        sp,
                        sd,
                        budget0,
                        self.spec_state(),
                        (fuel_pre - 1) as nat,
                    ));
                    assert((fuel_pre - 1) as nat == (budget0 - self.spec_steps() + 1) as nat);
                } else {
                    assert(spec_trace_run(img0, sp, sd, budget0, pre, fuel_pre) == step);
                }
            }
            if !matches!(r, StepResult::Continue) {
                proof {
                    if r == StepResult::Failed {
                        assert(self.spec_steps() == self.spec_budget() || self.spec_turns()
                            == 4);
                    }
                }
                return r;
            }
        }
    }
}

} // verus!
