//! The contract for incremental point accumulation with a line fit, shared
//! by the plain least-squares line and its grid-snapping variant.

use vstd::prelude::*;
use crate::dm_regression_line::DMRegressionLine;
use crate::regression_line::{COORD_LIMIT, LineFit, POINT_LIMIT, RegressionLine, spec_is_valid};

verus! {

pub trait RegressionLineTrait: Sized {
    /// The points accumulated so far, in order of addition.
    spec fn view_points(&self) -> Seq<(int, int)>;

    /// The accumulator's sums agree with its points.
    spec fn view_wf(&self) -> bool;

    /// Appends one sample point in O(1), under the shared coordinate and
    /// count limits.
    fn accumulate(&mut self, x: i64, y: i64)
        requires
            old(self).view_wf(),
            -COORD_LIMIT <= x <= COORD_LIMIT,
            -COORD_LIMIT <= y <= COORD_LIMIT,
            old(self).view_points().len() < POINT_LIMIT,
        ensures
            final(self).view_wf(),
            final(self).view_points() == old(self).view_points().push((x as int, y as int)),
    ;

    /// Whether a fit may be taken: at least two points, not all coincident.
    fn usable(&self) -> (r: bool)
        requires
            self.view_wf(),
        ensures
            r == spec_is_valid(self.view_points()),
    ;

    /// A fit, exactly when the accumulated points admit one.
    fn take_fit(&self) -> (r: Option<LineFit>)
        requires
            self.view_wf(),
        ensures
            r is Some <==> spec_is_valid(self.view_points()),
    ;
}

impl RegressionLineTrait for RegressionLine {
    open spec fn view_points(&self) -> Seq<(int, int)> {
        self.spec_points()
    }

    open spec fn view_wf(&self) -> bool {
        self.wf()
    }

    fn accumulate(&mut self, x: i64, y: i64) {
        self.add_point(x, y);
    }

    fn usable(&self) -> (r: bool) {
        self.is_valid()
    }

    fn take_fit(&self) -> (r: Option<LineFit>) {
        self.fit()
    }
}

impl RegressionLineTrait for DMRegressionLine {
    open spec fn view_points(&self) -> Seq<(int, int)> {
        self.spec_points()
    }

    open spec fn view_wf(&self) -> bool {
        self.wf()
    }

    fn accumulate(&mut self, x: i64, y: i64) {
        self.add_point(x, y);
    }

    fn usable(&self) -> (r: bool) {
        self.is_valid()
    }

    fn take_fit(&self) -> (r: Option<LineFit>) {
        self.fit()
    }
}

} // verus!
