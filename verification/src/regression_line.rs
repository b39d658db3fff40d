//! Incremental least-squares line fitting over integer sample points.
//!
//! A regression line accumulates points through running sums
//! (`n`, `Σx`, `Σy`, `Σxy`, `Σx²`, `Σy²`) in O(1) per point, never a stored
//! list scanned per fit.  The fit is the exact closed-form least-squares
//! solution over those sums, as a rational slope and intercept; the
//! degenerate case of zero variance in `x` is detected explicitly and
//! reported as a vertical line, never divided through.  Coordinates and the
//! point count are bounded so that every computation stays exact in machine
//! integers.

use vstd::prelude::*;
use vstd::seq_lib::{commutative_foldl, lemma_fold_left_permutation};

verus! {

/// Largest coordinate magnitude a sample point may have.
pub const COORD_LIMIT: i64 = 1024;

/// Largest number of points one line may accumulate.
pub const POINT_LIMIT: u64 = 4096;

/// The sum of the `x` coordinates.
pub open spec fn sum_x(pts: Seq<(int, int)>) -> int {
    pts.fold_left(0int, |acc: int, p: (int, int)| acc + p.0)
}

/// The sum of the `y` coordinates.
pub open spec fn sum_y(pts: Seq<(int, int)>) -> int {
    pts.fold_left(0int, |acc: int, p: (int, int)| acc + p.1)
}

/// The sum of the products `x * y`.
pub open spec fn sum_xy(pts: Seq<(int, int)>) -> int {
    pts.fold_left(0int, |acc: int, p: (int, int)| acc + p.0 * p.1)
}

/// The sum of the squares of `x`.
pub open spec fn sum_xx(pts: Seq<(int, int)>) -> int {
    pts.fold_left(0int, |acc: int, p: (int, int)| acc + p.0 * p.0)
}

/// The sum of the squares of `y`.
pub open spec fn sum_yy(pts: Seq<(int, int)>) -> int {
    pts.fold_left(0int, |acc: int, p: (int, int)| acc + p.1 * p.1)
}

/// Whether every point is within the coordinate limit.
pub open spec fn points_bounded(pts: Seq<(int, int)>) -> bool {
    forall|i: int|
        0 <= i < pts.len() ==> -1024 <= (#[trigger] pts[i]).0 <= 1024 && -1024 <= pts[i].1 <= 1024
}

/// `n` times the variance of `x` (scaled by `n`): `n*Σx² - (Σx)²`.
pub open spec fn spec_vdx(pts: Seq<(int, int)>) -> int {
    pts.len() * sum_xx(pts) - sum_x(pts) * sum_x(pts)
}

/// `n` times the variance of `y` (scaled by `n`): `n*Σy² - (Σy)²`.
pub open spec fn spec_vdy(pts: Seq<(int, int)>) -> int {
    pts.len() * sum_yy(pts) - sum_y(pts) * sum_y(pts)
}

/// The numerator of the least-squares slope: `n*Σxy - Σx*Σy`.
pub open spec fn spec_slope_num(pts: Seq<(int, int)>) -> int {
    pts.len() * sum_xy(pts) - sum_x(pts) * sum_y(pts)
}

/// A line is fit-worthy once it holds at least two points that are not all
/// coincident, seen through the scaled variances.
pub open spec fn spec_is_valid(pts: Seq<(int, int)>) -> bool {
    pts.len() >= 2 && (spec_vdx(pts) > 0 || spec_vdy(pts) > 0)
}

/// A fitted line in exact rational form.
#[derive(Clone, Copy, Debug, PartialEq, Eq, Structural)]
pub enum LineFit {
    /// `y = (slope_num/slope_den) * x + (icept_num/icept_den)`, the
    /// denominators positive.
    Sloped { slope_num: i128, slope_den: i128, icept_num: i128, icept_den: i128 },
    /// The vertical line `x = x_num / x_den`, the denominator positive.
    Vertical { x_num: i128, x_den: i128 },
}

/// The exact least-squares fit of a valid point set: slope
/// `(n*Σxy - Σx*Σy) / (n*Σx² - (Σx)²)` through the centroid, or the vertical
/// line through the mean `x` when the `x` variance vanishes.
pub open spec fn spec_fit(pts: Seq<(int, int)>) -> LineFit {
    if spec_vdx(pts) > 0 {
        LineFit::Sloped {
            slope_num: spec_slope_num(pts) as i128,
            slope_den: spec_vdx(pts) as i128,
            icept_num: (sum_y(pts) * spec_vdx(pts) - spec_slope_num(pts) * sum_x(pts)) as i128,
            icept_den: (pts.len() * spec_vdx(pts)) as i128,
        }
    } else {
        LineFit::Vertical { x_num: sum_x(pts) as i128, x_den: pts.len() as i128 }
    }
}

/// All five sums are bounded by the point count times the per-point bound.
pub proof fn lemma_sums_bounded(pts: Seq<(int, int)>)
    requires
        points_bounded(pts),
    ensures
        -(pts.len() * 1024) <= sum_x(pts) <= pts.len() * 1024,
        -(pts.len() * 1024) <= sum_y(pts) <= pts.len() * 1024,
        -(pts.len() * 0x100000) <= sum_xy(pts) <= pts.len() * 0x100000,
        0 <= sum_xx(pts) <= pts.len() * 0x100000,
        0 <= sum_yy(pts) <= pts.len() * 0x100000,
    decreases pts.len(),
{
    if pts.len() > 0 {
        let prefix = pts.drop_last();
        let p = pts.last();
        assert(points_bounded(prefix));
        lemma_sums_bounded(prefix);
        let k = prefix.len() as int;
        assert(-0x100000 <= p.0 * p.1 <= 0x100000) by (nonlinear_arith)
            requires
                -1024 <= p.0 <= 1024,
                -1024 <= p.1 <= 1024,
        ;
        assert(0 <= p.0 * p.0 <= 0x100000) by (nonlinear_arith)
            requires
                -1024 <= p.0 <= 1024,
        ;
        assert(0 <= p.1 * p.1 <= 0x100000) by (nonlinear_arith)
            requires
                -1024 <= p.1 <= 1024,
        ;
        assert(k * 1024 + 1024 == (k + 1) * 1024) by (nonlinear_arith);
        assert(k * 0x100000 + 0x100000 == (k + 1) * 0x100000) by (nonlinear_arith);
    }
}

/// The sums, and with them the fit, depend only on which points were added,
/// not on the order of addition: accumulation is order-independent.
pub proof fn lemma_fit_order_independent(pts1: Seq<(int, int)>, pts2: Seq<(int, int)>)
    requires
        pts1.to_multiset() == pts2.to_multiset(),
    ensures
        sum_x(pts1) == sum_x(pts2),
        sum_y(pts1) == sum_y(pts2),
        sum_xy(pts1) == sum_xy(pts2),
        sum_xx(pts1) == sum_xx(pts2),
        sum_yy(pts1) == sum_yy(pts2),
        spec_is_valid(pts1) == spec_is_valid(pts2),
        spec_fit(pts1) == spec_fit(pts2),
{
    let fx = |acc: int, p: (int, int)| acc + p.0;
    let fy = |acc: int, p: (int, int)| acc + p.1;
    let fxy = |acc: int, p: (int, int)| acc + p.0 * p.1;
    let fxx = |acc: int, p: (int, int)| acc + p.0 * p.0;
    let fyy = |acc: int, p: (int, int)| acc + p.1 * p.1;
    assert(commutative_foldl(fx));
    assert(commutative_foldl(fy));
    assert(commutative_foldl(fxy));
    assert(commutative_foldl(fxx));
    assert(commutative_foldl(fyy));
    lemma_fold_left_permutation(pts1, pts2, fx, 0int);
    lemma_fold_left_permutation(pts1, pts2, fy, 0int);
    lemma_fold_left_permutation(pts1, pts2, fxy, 0int);
    lemma_fold_left_permutation(pts1, pts2, fxx, 0int);
    lemma_fold_left_permutation(pts1, pts2, fyy, 0int);
    pts1.to_multiset_ensures();
    pts2.to_multiset_ensures();
    assert(pts1.len() == pts2.len());
}

/// The sum of the scaled vertical residuals `c*y - a*x - b` over the points.
pub open spec fn sum_residuals(pts: Seq<(int, int)>, a: int, b: int, c: int) -> int {
    pts.fold_left(0int, |acc: int, p: (int, int)| acc + (c * p.1 - a * p.0 - b))
}

/// The same residuals, each weighted by its point's `x`.
pub open spec fn sum_x_weighted_residuals(pts: Seq<(int, int)>, a: int, b: int, c: int) -> int {
    pts.fold_left(0int, |acc: int, p: (int, int)| acc + p.0 * (c * p.1 - a * p.0 - b))
}

/// Residual sums are linear combinations of the running sums.
proof fn lemma_residual_sums(pts: Seq<(int, int)>, a: int, b: int, c: int)
    ensures
        sum_residuals(pts, a, b, c) == c * sum_y(pts) - a * sum_x(pts) - b * pts.len(),
        sum_x_weighted_residuals(pts, a, b, c) == c * sum_xy(pts) - a * sum_xx(pts) - b * sum_x(
            pts,
        ),
    decreases pts.len(),
{
    if pts.len() > 0 {
        let prefix = pts.drop_last();
        let p = pts.last();
        lemma_residual_sums(prefix, a, b, c);
        let k = prefix.len() as int;
        assert(b * (k + 1) == b * k + b) by (nonlinear_arith);
        assert(c * (sum_y(prefix) + p.1) == c * sum_y(prefix) + c * p.1) by (nonlinear_arith);
        assert(a * (sum_x(prefix) + p.0) == a * sum_x(prefix) + a * p.0) by (nonlinear_arith);
        assert(c * (sum_xy(prefix) + p.0 * p.1) == c * sum_xy(prefix) + c * (p.0 * p.1))
            by (nonlinear_arith);
        assert(a * (sum_xx(prefix) + p.0 * p.0) == a * sum_xx(prefix) + a * (p.0 * p.0))
            by (nonlinear_arith);
        assert(b * (sum_x(prefix) + p.0) == b * sum_x(prefix) + b * p.0) by (nonlinear_arith);
        assert(p.0 * (c * p.1 - a * p.0 - b) == c * (p.0 * p.1) - a * (p.0 * p.0) - b * p.0)
            by (nonlinear_arith);
    }
}

/// The least-squares fit satisfies the normal equations: with the slope
/// `a/c` and intercept `(Σy*c - a*Σx)/(n*c)` that [`spec_fit`] computes, the
/// scaled vertical residuals sum to zero and are uncorrelated with `x`.
/// This is the standard characterization of the line minimizing the sum of
/// squared vertical distances to the points.
#[verifier::rlimit(60)]
pub proof fn lemma_fit_normal_equations(pts: Seq<(int, int)>)
    requires
        spec_vdx(pts) > 0,
    ensures
        ({
            let a = spec_slope_num(pts);
            let c = spec_vdx(pts);
            let n = pts.len() as int;
            let b = sum_y(pts) * c - a * sum_x(pts);
            &&& sum_residuals(pts, n * a, b, n * c) == 0
            &&& sum_x_weighted_residuals(pts, n * a, b, n * c) == 0
        }),
{
    let a = spec_slope_num(pts);
    let c = spec_vdx(pts);
    let n = pts.len() as int;
    let b = sum_y(pts) * c - a * sum_x(pts);
    let sx = sum_x(pts);
    let sy = sum_y(pts);
    let sxy = sum_xy(pts);
    let sxx = sum_xx(pts);
    lemma_residual_sums(pts, n * a, b, n * c);
    assert((n * c) * sy - (n * a) * sx - b * n == 0) by (nonlinear_arith)
        requires
            b == sy * c - a * sx,
    ;
    assert(c * sxy - a * sxx == sx * (sxx * sy - sxy * sx)) by (nonlinear_arith)
        requires
            a == n * sxy - sx * sy,
            c == n * sxx - sx * sx,
    ;
    let t = sxx * sy - sxy * sx;
    assert(sy * c - a * sx == n * t) by (nonlinear_arith)
        requires
            a == n * sxy - sx * sy,
            c == n * sxx - sx * sx,
            t == sxx * sy - sxy * sx,
    ;
    assert((n * c) * sxy == n * (c * sxy)) by (nonlinear_arith);
    assert((n * a) * sxx == n * (a * sxx)) by (nonlinear_arith);
    assert(n * (c * sxy) - n * (a * sxx) == n * (c * sxy - a * sxx)) by (nonlinear_arith);
    assert(n * (sx * t) == (n * t) * sx) by (nonlinear_arith);
    assert((n * c) * sxy - (n * a) * sxx - b * sx == 0);
}

/// The sum of squared scaled vertical residuals `(c*y - a*x - b)^2`.
pub open spec fn sum_sq_residuals(pts: Seq<(int, int)>, a: int, b: int, c: int) -> int {
    pts.fold_left(
        0int,
        |acc: int, p: (int, int)| acc + (c * p.1 - a * p.0 - b) * (c * p.1 - a * p.0 - b),
    )
}

/// The sum of `(u*x + v)^2` over the points.
pub open spec fn sum_sq_affine(pts: Seq<(int, int)>, u: int, v: int) -> int {
    pts.fold_left(0int, |acc: int, p: (int, int)| acc + (u * p.0 + v) * (u * p.0 + v))
}

/// A sum of squares of affine values is never negative.
proof fn lemma_sum_sq_affine_nonneg(pts: Seq<(int, int)>, u: int, v: int)
    ensures
        sum_sq_affine(pts, u, v) >= 0,
    decreases pts.len(),
{
    if pts.len() > 0 {
        lemma_sum_sq_affine_nonneg(pts.drop_last(), u, v);
        let p = pts.last();
        assert((u * p.0 + v) * (u * p.0 + v) >= 0) by (nonlinear_arith);
    }
}

/// Changing the line decomposes the squared residual sum: the cross terms
/// collect into the residual sums of the first line, and the remainder is a
/// sum of squares.
proof fn lemma_sq_decompose(pts: Seq<(int, int)>, a1: int, b1: int, a2: int, b2: int, c: int)
    ensures
        sum_sq_residuals(pts, a2, b2, c) == sum_sq_residuals(pts, a1, b1, c) + 2 * (a1 - a2)
            * sum_x_weighted_residuals(pts, a1, b1, c) + 2 * (b1 - b2) * sum_residuals(
            pts,
            a1,
            b1,
            c,
        ) + sum_sq_affine(pts, a1 - a2, b1 - b2),
    decreases pts.len(),
{
    let u = a1 - a2;
    let v = b1 - b2;
    if pts.len() > 0 {
        let prefix = pts.drop_last();
        let p = pts.last();
        lemma_sq_decompose(prefix, a1, b1, a2, b2, c);
        let d = c * p.1 - a1 * p.0 - b1;
        let e = c * p.1 - a2 * p.0 - b2;
        assert(e == d + u * p.0 + v) by (nonlinear_arith)
            requires
                d == c * p.1 - a1 * p.0 - b1,
                e == c * p.1 - a2 * p.0 - b2,
                u == a1 - a2,
                v == b1 - b2,
        ;
        assert(e * e == d * d + 2 * u * (p.0 * d) + 2 * v * d + (u * p.0 + v) * (u * p.0 + v))
            by (nonlinear_arith)
            requires
                e == d + u * p.0 + v,
        ;
        assert(2 * u * (sum_x_weighted_residuals(prefix, a1, b1, c) + p.0 * d) == 2 * u
            * sum_x_weighted_residuals(prefix, a1, b1, c) + 2 * u * (p.0 * d))
            by (nonlinear_arith);
        assert(2 * v * (sum_residuals(prefix, a1, b1, c) + d) == 2 * v * sum_residuals(
            prefix,
            a1,
            b1,
            c,
        ) + 2 * v * d) by (nonlinear_arith);
    }
}

/// The least-squares property: among all lines `y = (a2*x + b2) / (n*vdx)`
/// written over the fit's own denominator, the fitted slope and intercept
/// minimize the sum of squared scaled vertical distances to the points.
pub proof fn lemma_fit_minimizes_squared_residuals(pts: Seq<(int, int)>, a2: int, b2: int)
    requires
        spec_vdx(pts) > 0,
    ensures
        ({
            let a = spec_slope_num(pts);
            let c = spec_vdx(pts);
            let n = pts.len() as int;
            let b = sum_y(pts) * c - a * sum_x(pts);
            sum_sq_residuals(pts, a2, b2, n * c) >= sum_sq_residuals(pts, n * a, b, n * c)
        }),
{
    let a = spec_slope_num(pts);
    let c = spec_vdx(pts);
    let n = pts.len() as int;
    let b = sum_y(pts) * c - a * sum_x(pts);
    lemma_fit_normal_equations(pts);
    lemma_sq_decompose(pts, n * a, b, a2, b2, n * c);
    lemma_sum_sq_affine_nonneg(pts, n * a - a2, b - b2);
    assert(2 * (n * a - a2) * 0 == 0) by (nonlinear_arith);
    assert(2 * (b - b2) * 0 == 0) by (nonlinear_arith);
}

/// A sum of squared residuals is never negative.
proof fn lemma_sum_sq_residuals_nonneg(pts: Seq<(int, int)>, a: int, b: int, c: int)
    ensures
        sum_sq_residuals(pts, a, b, c) >= 0,
    decreases pts.len(),
{
    if pts.len() > 0 {
        lemma_sum_sq_residuals_nonneg(pts.drop_last(), a, b, c);
        let p = pts.last();
        assert((c * p.1 - a * p.0 - b) * (c * p.1 - a * p.0 - b) >= 0) by (nonlinear_arith);
    }
}

/// Points lying exactly on the line `c*y == a*x + b` give that line a zero
/// squared-residual sum.
proof fn lemma_collinear_zero_residuals(pts: Seq<(int, int)>, a: int, b: int, c: int)
    requires
        forall|i: int|
            0 <= i < pts.len() ==> c * (#[trigger] pts[i]).1 - a * pts[i].0 - b == 0,
    ensures
        sum_sq_residuals(pts, a, b, c) == 0,
    decreases pts.len(),
{
    if pts.len() > 0 {
        assert(forall|i: int|
            0 <= i < pts.drop_last().len() ==> c * (#[trigger] pts.drop_last()[i]).1 - a
                * pts.drop_last()[i].0 - b == 0);
        lemma_collinear_zero_residuals(pts.drop_last(), a, b, c);
        let p = pts.last();
        let r = c * p.1 - a * p.0 - b;
        assert(r == 0);
        assert(r * r == 0) by (nonlinear_arith)
            requires
                r == 0,
        ;
    }
}

/// Points collinear on the horizontal grid line `y == w` are fitted with
/// zero summed squared residuals: the fitted line passes through every
/// point, attaining the minimum that [`lemma_fit_minimizes_squared_residuals`]
/// guarantees, and no line fits better.
pub proof fn lemma_horizontal_points_fit_exactly(pts: Seq<(int, int)>, w: int)
    requires
        spec_vdx(pts) > 0,
        forall|i: int| 0 <= i < pts.len() ==> (#[trigger] pts[i]).1 == w,
    ensures
        ({
            let a = spec_slope_num(pts);
            let c = spec_vdx(pts);
            let n = pts.len() as int;
            let b = sum_y(pts) * c - a * sum_x(pts);
            sum_sq_residuals(pts, n * a, b, n * c) == 0
        }),
{
    let a = spec_slope_num(pts);
    let c = spec_vdx(pts);
    let n = pts.len() as int;
    let b = sum_y(pts) * c - a * sum_x(pts);
    // The horizontal candidate line `(n*c)*y == 0*x + (n*c)*w` has zero
    // residuals, so the fitted sum is at most zero; a sum of squares is at
    // least zero.
    assert forall|i: int|
        0 <= i < pts.len() implies (n * c) * (#[trigger] pts[i]).1 - 0 * pts[i].0 - (n * c) * w
        == 0 by {
        assert((n * c) * pts[i].1 == (n * c) * w);
        assert(0 * pts[i].0 == 0) by (nonlinear_arith);
    }
    lemma_collinear_zero_residuals(pts, 0, (n * c) * w, n * c);
    lemma_fit_minimizes_squared_residuals(pts, 0, (n * c) * w);
    lemma_sum_sq_residuals_nonneg(pts, n * a, b, n * c);
}

/// An incremental least-squares accumulator.
pub struct RegressionLine {
    n: u64,
    sx: i64,
    sy: i64,
    sxy: i64,
    sxx: i64,
    syy: i64,
    points: Ghost<Seq<(int, int)>>,
}

impl RegressionLine {
    /// The points accumulated so far, in order of addition.
    pub closed spec fn spec_points(self) -> Seq<(int, int)> {
        self.points@
    }

    /// The sums agree with the accumulated points, which are bounded.
    pub closed spec fn wf(self) -> bool {
        &&& self.n == self.points@.len()
        &&& self.points@.len() <= 4096
        &&& points_bounded(self.points@)
        &&& self.sx == sum_x(self.points@)
        &&& self.sy == sum_y(self.points@)
        &&& self.sxy == sum_xy(self.points@)
        &&& self.sxx == sum_xx(self.points@)
        &&& self.syy == sum_yy(self.points@)
    }

    /// An empty accumulator.
    pub fn new() -> (r: RegressionLine)
        ensures
            r.wf(),
            r.spec_points() == Seq::<(int, int)>::empty(),
    {
        RegressionLine { n: 0, sx: 0, sy: 0, sxy: 0, sxx: 0, syy: 0, points: Ghost(Seq::empty()) }
    }

    /// How many points were accumulated.
    pub fn length(&self) -> (r: u64)
        requires
            self.wf(),
        ensures
            r == self.spec_points().len(),
    {
        self.n
    }

    /// Appends one sample point, updating every running sum.  The coordinate
    /// and count limits keep the sums exact in machine integers.
    pub fn add_point(&mut self, x: i64, y: i64)
        requires
            old(self).wf(),
            -COORD_LIMIT <= x <= COORD_LIMIT,
            -COORD_LIMIT <= y <= COORD_LIMIT,
            old(self).spec_points().len() < POINT_LIMIT,
        ensures
            final(self).wf(),
            final(self).spec_points() == old(self).spec_points().push((x as int, y as int)),
    {
        proof {
            lemma_sums_bounded(self.points@);
            assert(-0x100000 <= x * y <= 0x100000) by (nonlinear_arith)
                requires
                    -1024 <= x <= 1024,
                    -1024 <= y <= 1024,
            ;
            assert(0 <= x * x <= 0x100000) by (nonlinear_arith)
                requires
                    -1024 <= x <= 1024,
            ;
            assert(0 <= y * y <= 0x100000) by (nonlinear_arith)
                requires
                    -1024 <= y <= 1024,
            ;
            assert(self.points@.len() * 1024 <= 4096 * 1024) by (nonlinear_arith)
                requires
                    self.points@.len() <= 4096,
            ;
            assert(self.points@.len() * 0x100000 <= 4096 * 0x100000) by (nonlinear_arith)
                requires
                    self.points@.len() <= 4096,
            ;
        }
        self.n = self.n + 1;
        self.sx = self.sx + x;
        self.sy = self.sy + y;
        self.sxy = self.sxy + x * y;
        self.sxx = self.sxx + x * x;
        self.syy = self.syy + y * y;
        proof {
            let newpts = old(self).points@.push((x as int, y as int));
            self.points@ = newpts;
            assert(newpts.drop_last() =~= old(self).points@);
        }
    }

    /// Whether a fit may be taken: at least two points, not all coincident.
    /// Callers check this before consuming a fit.
    pub fn is_valid(&self) -> (r: bool)
        requires
            self.wf(),
        ensures
            r == spec_is_valid(self.spec_points()),
    {
        proof {
            self.lemma_moment_bounds();
        }
        if self.n < 2 {
            return false;
        }
        let n = self.n as i128;
        let vdx: i128 = n * (self.sxx as i128) - (self.sx as i128) * (self.sx as i128);
        let vdy: i128 = n * (self.syy as i128) - (self.sy as i128) * (self.sy as i128);
        vdx > 0 || vdy > 0
    }

    /// The products of the stored sums all fit comfortably in `i128`.
    pub proof fn lemma_moment_bounds(self)
        requires
            self.wf(),
        ensures
            -0x400000 <= sum_x(self.spec_points()) <= 0x400000,
            -0x400000 <= sum_y(self.spec_points()) <= 0x400000,
            -0x100000000 <= sum_xy(self.spec_points()) <= 0x100000000,
            0 <= sum_xx(self.spec_points()) <= 0x100000000,
            0 <= sum_yy(self.spec_points()) <= 0x100000000,
            -0x100000000000 <= self.spec_points().len() * sum_xx(self.spec_points()) <= 0x100000000000,
            -0x100000000000 <= self.spec_points().len() * sum_yy(self.spec_points()) <= 0x100000000000,
            -0x100000000000 <= self.spec_points().len() * sum_xy(self.spec_points()) <= 0x100000000000,
            -0x100000000000 <= sum_x(self.spec_points()) * sum_x(self.spec_points()) <= 0x100000000000,
            -0x100000000000 <= sum_y(self.spec_points()) * sum_y(self.spec_points()) <= 0x100000000000,
            -0x100000000000 <= sum_x(self.spec_points()) * sum_y(self.spec_points()) <= 0x100000000000,
    {
        lemma_sums_bounded(self.points@);
        let len = self.points@.len() as int;
        assert(len * 1024 <= 4096 * 1024) by (nonlinear_arith)
            requires
                0 <= len <= 4096,
        ;
        assert(len * 0x100000 <= 4096 * 0x100000) by (nonlinear_arith)
            requires
                0 <= len <= 4096,
        ;
        assert(-0x100000000000 <= len * sum_xx(self.points@) <= 0x100000000000)
            by (nonlinear_arith)
            requires
                0 <= len <= 4096,
                -0x100000000 <= sum_xx(self.points@) <= 0x100000000,
        ;
        assert(-0x100000000000 <= len * sum_yy(self.points@) <= 0x100000000000)
            by (nonlinear_arith)
            requires
                0 <= len <= 4096,
                -0x100000000 <= sum_yy(self.points@) <= 0x100000000,
        ;
        assert(-0x100000000000 <= len * sum_xy(self.points@) <= 0x100000000000)
            by (nonlinear_arith)
            requires
                0 <= len <= 4096,
                -0x100000000 <= sum_xy(self.points@) <= 0x100000000,
        ;
        assert(-0x100000000000 <= sum_x(self.points@) * sum_x(self.points@)
            <= 0x100000000000) by (nonlinear_arith)
            requires
                -0x400000 <= sum_x(self.points@) <= 0x400000,
        ;
        assert(-0x100000000000 <= sum_y(self.points@) * sum_y(self.points@)
            <= 0x100000000000) by (nonlinear_arith)
            requires
                -0x400000 <= sum_y(self.points@) <= 0x400000,
        ;
        assert(-0x100000000000 <= sum_x(self.points@) * sum_y(self.points@)
            <= 0x100000000000) by (nonlinear_arith)
            requires
                -0x400000 <= sum_x(self.points@) <= 0x400000,
                -0x400000 <= sum_y(self.points@) <= 0x400000,
        ;
    }

    /// The point count and the five running sums
    /// `(n, Σx, Σy, Σxy, Σx², Σy²)`.
    pub fn moments(&self) -> (r: (u64, i64, i64, i64, i64, i64))
        requires
            self.wf(),
        ensures
            r.0 == self.spec_points().len(),
            r.1 == sum_x(self.spec_points()),
            r.2 == sum_y(self.spec_points()),
            r.3 == sum_xy(self.spec_points()),
            r.4 == sum_xx(self.spec_points()),
            r.5 == sum_yy(self.spec_points()),
    {
        (self.n, self.sx, self.sy, self.sxy, self.sxx, self.syy)
    }

    /// The exact least-squares fit, or `None` when the line is not valid.
    /// The vertical case is detected and reported, never divided through.
    pub fn fit(&self) -> (r: Option<LineFit>)
        requires
            self.wf(),
        ensures
            r is Some <==> spec_is_valid(self.spec_points()),
            match r {
                Some(f) => f == spec_fit(self.spec_points()),
                None => true,
            },
    {
        proof {
            self.lemma_moment_bounds();
        }
        if self.n < 2 {
            return None;
        }
        let n = self.n as i128;
        let sx = self.sx as i128;
        let sy = self.sy as i128;
        let vdx: i128 = n * (self.sxx as i128) - sx * sx;
        let vdy: i128 = n * (self.syy as i128) - sy * sy;
        if vdx > 0 {
            let slope_num: i128 = n * (self.sxy as i128) - sx * sy;
            proof {
                assert(-0x80000000000000000000 <= sum_y(self.points@) * spec_vdx(self.points@)
                    <= 0x80000000000000000000) by (nonlinear_arith)
                    requires
                        -0x400000 <= sum_y(self.points@) <= 0x400000,
                        -0x200000000000000 <= spec_vdx(self.points@) <= 0x200000000000000,
                ;
                assert(-0x80000000000000000000 <= spec_slope_num(self.points@) * sum_x(
                    self.points@,
                ) <= 0x80000000000000000000) by (nonlinear_arith)
                    requires
                        -0x200000000000000 <= spec_slope_num(self.points@) <= 0x200000000000000,
                        -0x400000 <= sum_x(self.points@) <= 0x400000,
                ;
                assert(-0x200000000000000000 <= self.points@.len() * spec_vdx(self.points@)
                    <= 0x200000000000000000) by (nonlinear_arith)
                    requires
                        0 <= self.points@.len() <= 4096,
                        -0x200000000000000 <= spec_vdx(self.points@) <= 0x200000000000000,
                ;
            }
            let icept_num: i128 = sy * vdx - slope_num * sx;
            let icept_den: i128 = n * vdx;
            Some(LineFit::Sloped { slope_num, slope_den: vdx, icept_num, icept_den })
        } else if vdy > 0 {
            Some(LineFit::Vertical { x_num: sx, x_den: n })
        } else {
            None
        }
    }

    /// The fitted line in implicit integer form `a*x + b*y = c`: the
    /// least-squares line through the centroid, cleared of denominators, the
    /// vertical case included.  The coefficient bounds let callers intersect
    /// two such lines exactly.
    pub fn implicit_line(&self) -> (r: Option<(i128, i128, i128)>)
        requires
            self.wf(),
        ensures
            r is Some <==> spec_is_valid(self.spec_points()),
            match r {
                Some(l) => {
                    &&& l == spec_implicit(self.spec_points())
                    &&& -0x200000000000000 <= l.0 <= 0x200000000000000
                    &&& -0x200000000000000 <= l.1 <= 0x200000000000000
                    &&& -0x100000000000000000 <= l.2 <= 0x100000000000000000
                },
                None => true,
            },
    {
        proof {
            self.lemma_moment_bounds();
        }
        if self.n < 2 {
            return None;
        }
        let n = self.n as i128;
        let sx = self.sx as i128;
        let sy = self.sy as i128;
        let vdx: i128 = n * (self.sxx as i128) - sx * sx;
        let vdy: i128 = n * (self.syy as i128) - sy * sy;
        if vdx > 0 {
            let snum: i128 = n * (self.sxy as i128) - sx * sy;
            proof {
                let pts = self.points@;
                assert(-0x200000000000000 <= pts.len() * spec_slope_num(pts)
                    <= 0x200000000000000) by (nonlinear_arith)
                    requires
                        0 <= pts.len() <= 4096,
                        -0x200000000000 <= spec_slope_num(pts) <= 0x200000000000,
                ;
                assert(-0x200000000000000 <= pts.len() * spec_vdx(pts)
                    <= 0x200000000000000) by (nonlinear_arith)
                    requires
                        0 <= pts.len() <= 4096,
                        -0x200000000000 <= spec_vdx(pts) <= 0x200000000000,
                ;
                assert(-0x80000000000000000 <= spec_slope_num(pts) * sum_x(pts)
                    <= 0x80000000000000000) by (nonlinear_arith)
                    requires
                        -0x200000000000 <= spec_slope_num(pts) <= 0x200000000000,
                        -0x400000 <= sum_x(pts) <= 0x400000,
                ;
                assert(-0x80000000000000000 <= spec_vdx(pts) * sum_y(pts)
                    <= 0x80000000000000000) by (nonlinear_arith)
                    requires
                        -0x200000000000 <= spec_vdx(pts) <= 0x200000000000,
                        -0x400000 <= sum_y(pts) <= 0x400000,
                ;
            }
            let a: i128 = n * snum;
            let b: i128 = -(n * vdx);
            let c: i128 = snum * sx - vdx * sy;
            Some((a, b, c))
        } else if vdy > 0 {
            Some((n, 0, sx))
        } else {
            None
        }
    }

    /// The point of the fitted sloped line at `x = t`, as an exact rational
    /// `y`, or `None` when the fit is missing or vertical.  The bound on `t`
    /// is a machine limit.
    pub fn point_at(&self, t: i64) -> (r: Option<crate::util::Rational>)
        requires
            self.wf(),
            -2048 <= t <= 2048,
        ensures
            r is Some <==> spec_is_valid(self.spec_points()) && spec_vdx(self.spec_points()) > 0,
            match r {
                Some(y) => {
                    let pts = self.spec_points();
                    &&& y.num == spec_slope_num(pts) * (pts.len() * t - sum_x(pts)) + spec_vdx(
                        pts,
                    ) * sum_y(pts)
                    &&& y.den == pts.len() * spec_vdx(pts)
                    &&& y.den > 0
                },
                None => true,
            },
    {
        proof {
            self.lemma_moment_bounds();
        }
        if self.n < 2 {
            return None;
        }
        let n = self.n as i128;
        let sx = self.sx as i128;
        let sy = self.sy as i128;
        let vdx: i128 = n * (self.sxx as i128) - sx * sx;
        if vdx <= 0 {
            return None;
        }
        let snum: i128 = n * (self.sxy as i128) - sx * sy;
        proof {
            let pts = self.points@;
            assert(-0x2000000 <= pts.len() * t <= 0x2000000) by (nonlinear_arith)
                requires
                    0 <= pts.len() <= 4096,
                    -2048 <= t <= 2048,
            ;
            assert(-0x8000000000000000000 <= spec_slope_num(pts) * (pts.len() * t - sum_x(pts))
                <= 0x8000000000000000000) by (nonlinear_arith)
                requires
                    -0x200000000000 <= spec_slope_num(pts) <= 0x200000000000,
                    -0x2400000 <= pts.len() * t - sum_x(pts) <= 0x2400000,
            ;
            assert(-0x8000000000000000000 <= spec_vdx(pts) * sum_y(pts)
                <= 0x8000000000000000000) by (nonlinear_arith)
                requires
                    -0x200000000000 <= spec_vdx(pts) <= 0x200000000000,
                    -0x400000 <= sum_y(pts) <= 0x400000,
            ;
            assert(0 < pts.len() * spec_vdx(pts) <= 0x200000000000000) by (nonlinear_arith)
                requires
                    2 <= pts.len() <= 4096,
                    0 < spec_vdx(pts) <= 0x200000000000,
            ;
        }
        let num: i128 = snum * (n * (t as i128) - sx) + vdx * sy;
        let den: i128 = n * vdx;
        Some(crate::util::Rational { num, den })
    }

    /// The intersection point of this fitted line with another, as exact
    /// rationals, or `None` when either line is not valid or the two are
    /// parallel.
    pub fn intersection_with(&self, other: &RegressionLine) -> (r: Option<
        (crate::util::Rational, crate::util::Rational),
    >)
        requires
            self.wf(),
            other.wf(),
        ensures
            ({
                let valid = spec_is_valid(self.spec_points()) && spec_is_valid(
                    other.spec_points(),
                );
                let l1 = spec_implicit(self.spec_points());
                let l2 = spec_implicit(other.spec_points());
                let d = crate::util::spec_cross(l1.0 as int, l1.1 as int, l2.0 as int, l2.1 as int);
                match r {
                    Some(p) => {
                        &&& valid
                        &&& d != 0
                        &&& p.0.den > 0
                        &&& p.1.den > 0
                        &&& if d > 0 {
                            &&& p.0.num == l1.2 * l2.1 - l2.2 * l1.1
                            &&& p.0.den == d
                            &&& p.1.num == l1.0 * l2.2 - l2.0 * l1.2
                            &&& p.1.den == d
                        } else {
                            &&& p.0.num == -(l1.2 * l2.1 - l2.2 * l1.1)
                            &&& p.0.den == -d
                            &&& p.1.num == -(l1.0 * l2.2 - l2.0 * l1.2)
                            &&& p.1.den == -d
                        }
                    },
                    None => !valid || d == 0,
                }
            }),
    {
        let l1 = match self.implicit_line() {
            Some(l) => l,
            None => {
                return None;
            },
        };
        let l2 = match other.implicit_line() {
            Some(l) => l,
            None => {
                return None;
            },
        };
        crate::util::intersect_lines(l1.0, l1.1, l1.2, l2.0, l2.1, l2.2)
    }
}

/// The fitted line of a valid point set in implicit integer form
/// `a*x + b*y = c`: the sloped fit cleared of denominators, or `n*x = Σx`
/// for the vertical case.
pub open spec fn spec_implicit(pts: Seq<(int, int)>) -> (i128, i128, i128) {
    if spec_vdx(pts) > 0 {
        (
            (pts.len() * spec_slope_num(pts)) as i128,
            (-(pts.len() * spec_vdx(pts))) as i128,
            (spec_slope_num(pts) * sum_x(pts) - spec_vdx(pts) * sum_y(pts)) as i128,
        )
    } else {
        (pts.len() as i128, 0, sum_x(pts) as i128)
    }
}

} // verus!
