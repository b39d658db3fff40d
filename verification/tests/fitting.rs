use gridscan::dm_regression_line::DMRegressionLine;
use gridscan::pattern::Pattern;
use gridscan::regression_line::{LineFit, RegressionLine};
use gridscan::regression_line_trait::RegressionLineTrait;

#[test]
fn pattern_accepts_exact_template_with_zero_score() {
    let template: Vec<u16> = vec![1, 1, 3, 1, 1];
    let observed = template.clone();
    // Zero deviation is accepted under any tolerance, with score zero.
    assert_eq!(Pattern::match_against(&observed, &template, 1, 4), Some(0));
    assert_eq!(Pattern::match_against(&observed, &template, 0, 1), Some(0));
}

#[test]
fn pattern_accepts_scaled_template() {
    let template: Vec<u16> = vec![1, 1, 3, 1, 1];
    let observed: Vec<u16> = vec![4, 4, 12, 4, 4];
    assert_eq!(Pattern::match_against(&observed, &template, 1, 4), Some(0));
}

#[test]
fn pattern_rejects_interior_deviation_beyond_tolerance() {
    let template: Vec<u16> = vec![1, 1, 1, 1];
    // Interior run twice its expected share: relative deviation 60%.
    let observed: Vec<u16> = vec![1, 2, 1, 1];
    assert!(Pattern::match_against(&observed, &template, 1, 4).is_none());
    // A looser tolerance accepts the same candidate with a positive score.
    let r = Pattern::match_against(&observed, &template, 4, 4);
    assert!(r.is_some());
    assert!(r.unwrap() > 0);
}

#[test]
fn pattern_first_and_last_runs_are_exempt() {
    let template: Vec<u16> = vec![1, 1, 1, 1];
    // Only the quiet-zone runs deviate; the interior shares are exact.
    let observed: Vec<u16> = vec![3, 2, 2, 1];
    assert_eq!(Pattern::match_against(&observed, &template, 1, 4), Some(0));
}

#[test]
fn regression_fit_exact_slope_and_intercept() {
    // y = 2x + 1 through three points.
    let mut line = RegressionLine::new();
    line.add_point(0, 1);
    line.add_point(1, 3);
    line.add_point(2, 5);
    assert!(line.is_valid());
    match line.fit().unwrap() {
        LineFit::Sloped { slope_num, slope_den, icept_num, icept_den } => {
            assert_eq!(slope_num * 1, 2 * slope_den);
            assert_eq!(icept_num * 1, 1 * icept_den);
        }
        LineFit::Vertical { .. } => panic!("expected a sloped fit"),
    }
}

#[test]
fn regression_fit_detects_vertical_line() {
    let mut line = RegressionLine::new();
    line.add_point(2, 0);
    line.add_point(2, 5);
    assert!(line.is_valid());
    match line.fit().unwrap() {
        LineFit::Vertical { x_num, x_den } => {
            assert_eq!(x_num, 4);
            assert_eq!(x_den, 2);
        }
        LineFit::Sloped { .. } => panic!("expected a vertical fit"),
    }
}

#[test]
fn regression_invalid_without_two_distinct_points() {
    let mut line = RegressionLine::new();
    assert!(!line.is_valid());
    assert!(line.fit().is_none());
    line.add_point(3, 4);
    assert!(!line.is_valid());
    line.add_point(3, 4);
    // Two coincident points still give no usable fit.
    assert!(!line.is_valid());
    assert!(line.fit().is_none());
}

#[test]
fn regression_fit_is_order_independent() {
    let pts = [(0i64, 1i64), (1, 3), (2, 5), (5, 11), (3, 8)];
    let mut a = RegressionLine::new();
    for (x, y) in pts {
        a.add_point(x, y);
    }
    let mut b = RegressionLine::new();
    for &(x, y) in pts.iter().rev() {
        b.add_point(x, y);
    }
    assert_eq!(a.fit(), b.fit());
    assert_eq!(a.moments(), b.moments());
}

#[test]
fn regression_intersection_of_two_fits() {
    // Horizontal y = 1 and vertical x = 1 meet in (1, 1).
    let mut h = RegressionLine::new();
    h.add_point(0, 1);
    h.add_point(2, 1);
    let mut v = RegressionLine::new();
    v.add_point(1, 0);
    v.add_point(1, 2);
    let (x, y) = h.intersection_with(&v).unwrap();
    assert_eq!(x.num, x.den);
    assert_eq!(y.num, y.den);
}

#[test]
fn dm_fit_snaps_nearly_horizontal_to_axis() {
    // Points almost on y = 2: slope well below the snap threshold.
    let mut line = DMRegressionLine::new();
    line.add_point(0, 2);
    line.add_point(100, 2);
    line.add_point(200, 3);
    match line.fit().unwrap() {
        LineFit::Sloped { slope_num, slope_den, icept_num, icept_den } => {
            assert_eq!(slope_num, 0);
            assert_eq!(slope_den, 1);
            // The centroid height 7/3.
            assert_eq!(icept_num, 7);
            assert_eq!(icept_den, 3);
        }
        LineFit::Vertical { .. } => panic!("expected a snapped horizontal fit"),
    }
}

#[test]
fn dm_fit_snaps_nearly_vertical_to_axis() {
    let mut line = DMRegressionLine::new();
    line.add_point(2, 0);
    line.add_point(2, 100);
    line.add_point(3, 200);
    match line.fit().unwrap() {
        LineFit::Vertical { x_num, x_den } => {
            assert_eq!(x_num, 7);
            assert_eq!(x_den, 3);
        }
        LineFit::Sloped { .. } => panic!("expected a snapped vertical fit"),
    }
}

#[test]
fn dm_fit_keeps_diagonal_fits() {
    let mut line = DMRegressionLine::new();
    line.add_point(0, 0);
    line.add_point(1, 1);
    line.add_point(2, 2);
    match line.fit().unwrap() {
        LineFit::Sloped { slope_num, slope_den, .. } => {
            assert_eq!(slope_num, slope_den);
            assert!(slope_den > 0);
        }
        LineFit::Vertical { .. } => panic!("expected a sloped fit"),
    }
}

/// Feeds the same points through any accumulator behind the shared trait.
fn accumulate_all<L: RegressionLineTrait>(line: &mut L, pts: &[(i64, i64)]) {
    for &(x, y) in pts {
        line.accumulate(x, y);
    }
}

#[test]
fn trait_fit_agrees_between_plain_and_snapping_lines() {
    let pts = [(0i64, 0i64), (1, 1), (2, 2)];
    let mut plain = RegressionLine::new();
    accumulate_all(&mut plain, &pts);
    let mut snapping = DMRegressionLine::new();
    accumulate_all(&mut snapping, &pts);
    assert!(plain.usable());
    assert!(snapping.usable());
    // The diagonal is snapped by neither accumulator.
    assert_eq!(plain.take_fit(), snapping.take_fit());
}

#[test]
fn fit_residuals_satisfy_normal_equations() {
    // The scaled residuals of the fitted line sum to zero and are
    // uncorrelated with x, on a non-collinear sample.
    let pts = [(0i64, 0i64), (1, 1), (2, 1)];
    let mut line = RegressionLine::new();
    accumulate_all(&mut line, &pts);
    let (n, sx, sy, sxy, sxx, _) = line.moments();
    let n = n as i128;
    let (sx, sy, sxy, sxx) = (sx as i128, sy as i128, sxy as i128, sxx as i128);
    let c = n * sxx - sx * sx;
    let a = n * sxy - sx * sy;
    let b = sy * c - a * sx;
    let mut sum = 0i128;
    let mut x_weighted_sum = 0i128;
    for &(x, y) in &pts {
        let r = (n * c) * (y as i128) - (n * a) * (x as i128) - b;
        sum += r;
        x_weighted_sum += (x as i128) * r;
    }
    assert_eq!(sum, 0);
    assert_eq!(x_weighted_sum, 0);
}

#[test]
fn fit_has_smallest_squared_residuals_among_nearby_lines() {
    let pts = [(0i64, 0i64), (1, 1), (2, 1), (4, 3)];
    let mut line = RegressionLine::new();
    accumulate_all(&mut line, &pts);
    let (n, sx, sy, sxy, sxx, _) = line.moments();
    let n = n as i128;
    let (sx, sy, sxy, sxx) = (sx as i128, sy as i128, sxy as i128, sxx as i128);
    let c = n * sxx - sx * sx;
    let a = n * sxy - sx * sy;
    let b = sy * c - a * sx;
    let scale = n * c;
    let sq = |aa: i128, bb: i128| -> i128 {
        pts.iter()
            .map(|&(x, y)| {
                let r = scale * (y as i128) - aa * (x as i128) - bb;
                r * r
            })
            .sum()
    };
    let best = sq(n * a, b);
    for da in [-scale, 0, scale] {
        for db in [-scale, 0, scale] {
            assert!(sq(n * a + da, b + db) >= best);
        }
    }
}

#[test]
fn collinear_horizontal_points_fit_exactly() {
    // Points on y = 5: the fit is that very line, residuals all zero.
    let mut line = RegressionLine::new();
    line.add_point(0, 5);
    line.add_point(3, 5);
    line.add_point(7, 5);
    match line.fit().unwrap() {
        LineFit::Sloped { slope_num, slope_den, icept_num, icept_den } => {
            assert_eq!(slope_num, 0);
            assert!(slope_den > 0);
            assert_eq!(icept_num, 5 * icept_den);
        }
        LineFit::Vertical { .. } => panic!("expected a horizontal fit"),
    }
}
