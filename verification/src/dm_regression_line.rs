//! A regression line specialised for orthogonal, grid-aligned edges: when
//! the accumulated points are nearly collinear with a grid axis, the fit is
//! snapped to that axis through the centroid, removing jitter for square
//! finder patterns.

use vstd::prelude::*;
use crate::pattern::abs_int;
use crate::regression_line::{
    COORD_LIMIT,
    LineFit,
    POINT_LIMIT,
    RegressionLine,
    spec_fit,
    spec_is_valid,
    spec_slope_num,
    spec_vdx,
    sum_x,
    sum_y,
};

verus! {

/// The snapped fit: axis-aligned through the centroid when the least-squares
/// slope is within `1/32` of an axis, else the plain least-squares fit.
pub open spec fn spec_dm_fit(pts: Seq<(int, int)>) -> LineFit {
    if spec_vdx(pts) > 0 && 32 * abs_int(spec_slope_num(pts)) <= spec_vdx(pts) {
        LineFit::Sloped {
            slope_num: 0,
            slope_den: 1,
            icept_num: sum_y(pts) as i128,
            icept_den: pts.len() as i128,
        }
    } else if spec_vdx(pts) > 0 && 32 * spec_vdx(pts) <= abs_int(spec_slope_num(pts)) {
        LineFit::Vertical { x_num: sum_x(pts) as i128, x_den: pts.len() as i128 }
    } else {
        spec_fit(pts)
    }
}

/// An incremental least-squares accumulator whose fit snaps to grid axes.
pub struct DMRegressionLine {
    inner: RegressionLine,
}

impl DMRegressionLine {
    pub closed spec fn spec_points(self) -> Seq<(int, int)> {
        self.inner.spec_points()
    }

    pub closed spec fn wf(self) -> bool {
        self.inner.wf()
    }

    /// An empty accumulator.
    pub fn new() -> (r: DMRegressionLine)
        ensures
            r.wf(),
            r.spec_points() == Seq::<(int, int)>::empty(),
    {
        DMRegressionLine { inner: RegressionLine::new() }
    }

    /// How many points were accumulated.
    pub fn length(&self) -> (r: u64)
        requires
            self.wf(),
        ensures
            r == self.spec_points().len(),
    {
        self.inner.length()
    }

    /// Appends one sample point, as the plain regression line does.
    pub fn add_point(&mut self, x: i64, y: i64)
        requires
            old(self).wf(),
            -COORD_LIMIT <= x <= COORD_LIMIT,
            -COORD_LIMIT <= y <= COORD_LIMIT,
            old(self).spec_points().len() < POINT_LIMIT,
        ensures
            final(self).wf(),
            final(self).spec_points() == old(self).spec_points().push((x as int, y as int)),
    {
        self.inner.add_point(x, y);
    }

    /// Whether a fit may be taken.
    pub fn is_valid(&self) -> (r: bool)
        requires
            self.wf(),
        ensures
            r == spec_is_valid(self.spec_points()),
    {
        self.inner.is_valid()
    }

    /// The snapped least-squares fit, or `None` when the line is not valid.
    pub fn fit(&self) -> (r: Option<LineFit>)
        requires
            self.wf(),
        ensures
            r is Some <==> spec_is_valid(self.spec_points()),
            match r {
                Some(f) => f == spec_dm_fit(self.spec_points()),
                None => true,
            },
    {
        proof {
            self.inner.lemma_moment_bounds();
        }
        let base = match self.inner.fit() {
            Some(f) => f,
            None => {
                return None;
            },
        };
        let (n, sx, sy, _sxy, _sxx, _syy) = self.inner.moments();
        match base {
            LineFit::Sloped { slope_num, slope_den, icept_num: _, icept_den: _ } => {
                let mag: i128 = if slope_num >= 0 {
                    slope_num
                } else {
                    -slope_num
                };
                if 32 * mag <= slope_den {
                    Some(
                        LineFit::Sloped {
                            slope_num: 0,
                            slope_den: 1,
                            icept_num: sy as i128,
                            icept_den: n as i128,
                        },
                    )
                } else if 32 * slope_den <= mag {
                    Some(LineFit::Vertical { x_num: sx as i128, x_den: n as i128 })
                } else {
                    Some(base)
                }
            },
            LineFit::Vertical { .. } => Some(base),
        }
    }
}

} // verus!
