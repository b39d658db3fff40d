//! The outcome of one tracing step or of a whole trace, as a plain tagged
//! value: pattern search probes many candidates expecting most to fail, so
//! the negative outcomes are ordinary results, never unwinding failures.

use vstd::prelude::*;

verus! {

#[derive(Clone, Copy, Debug, PartialEq, Eq, Structural)]
pub enum StepResult {
    /// The trace advanced and can go on.
    Continue,
    /// The trace returned to its starting state: a closed loop.
    Closed,
    /// No consistent geometric interpretation was found, or the step budget
    /// ran out.
    Failed,
    /// The trace would leave the grid.
    OutOfBounds,
}

} // verus!
