//! Shared numeric helpers: 2D vector products, line-line intersection and
//! clamping, all in exact integer or rational arithmetic.

use vstd::prelude::*;

verus! {

/// An exact rational number; the denominator is positive by convention of
/// every producer in this crate.  The value is `num / den`.
#[derive(Clone, Copy, Debug, PartialEq, Eq, Structural)]
pub struct Rational {
    pub num: i128,
    pub den: i128,
}

pub open spec fn spec_cross(ax: int, ay: int, bx: int, by: int) -> int {
    ax * by - ay * bx
}

pub open spec fn spec_dot(ax: int, ay: int, bx: int, by: int) -> int {
    ax * bx + ay * by
}

/// The 2D cross product `ax*by - ay*bx`.  The bound is a machine limit that
/// keeps the products exact.
pub fn cross(ax: i64, ay: i64, bx: i64, by: i64) -> (r: i64)
    requires
        -0x40000000 <= ax <= 0x40000000,
        -0x40000000 <= ay <= 0x40000000,
        -0x40000000 <= bx <= 0x40000000,
        -0x40000000 <= by <= 0x40000000,
    ensures
        r == spec_cross(ax as int, ay as int, bx as int, by as int),
{
    proof {
        lemma_prod_bound(ax as int, by as int);
        lemma_prod_bound(ay as int, bx as int);
    }
    ax * by - ay * bx
}

/// The 2D dot product `ax*bx + ay*by`, under the same machine limit.
pub fn dot(ax: i64, ay: i64, bx: i64, by: i64) -> (r: i64)
    requires
        -0x40000000 <= ax <= 0x40000000,
        -0x40000000 <= ay <= 0x40000000,
        -0x40000000 <= bx <= 0x40000000,
        -0x40000000 <= by <= 0x40000000,
    ensures
        r == spec_dot(ax as int, ay as int, bx as int, by as int),
{
    proof {
        lemma_prod_bound(ax as int, bx as int);
        lemma_prod_bound(ay as int, by as int);
    }
    ax * bx + ay * by
}

proof fn lemma_prod_bound(a: int, b: int)
    requires
        -0x40000000 <= a <= 0x40000000,
        -0x40000000 <= b <= 0x40000000,
    ensures
        -0x1000000000000000 <= a * b <= 0x1000000000000000,
{
    assert(-0x1000000000000000 <= a * b <= 0x1000000000000000) by (nonlinear_arith)
        requires
            -0x40000000 <= a <= 0x40000000,
            -0x40000000 <= b <= 0x40000000,
    ;
}

/// `v` clamped into `[lo, hi]`.
pub fn clamp(v: i64, lo: i64, hi: i64) -> (r: i64)
    requires
        lo <= hi,
    ensures
        r == if v < lo {
            lo
        } else if v > hi {
            hi
        } else {
            v
        },
{
    if v < lo {
        lo
    } else if v > hi {
        hi
    } else {
        v
    }
}

/// The intersection of the lines `a1*x + b1*y = c1` and `a2*x + b2*y = c2`,
/// by Cramer's rule with the sign normalized so both denominators are
/// positive, or `None` exactly when the lines are parallel (zero
/// determinant).  The coefficient bounds are machine limits sized to the
/// implicit lines that regression fits produce.
pub fn intersect_lines(a1: i128, b1: i128, c1: i128, a2: i128, b2: i128, c2: i128) -> (r: Option<
    (Rational, Rational),
>)
    requires
        -0x200000000000000 <= a1 <= 0x200000000000000,
        -0x200000000000000 <= b1 <= 0x200000000000000,
        -0x100000000000000000 <= c1 <= 0x100000000000000000,
        -0x200000000000000 <= a2 <= 0x200000000000000,
        -0x200000000000000 <= b2 <= 0x200000000000000,
        -0x100000000000000000 <= c2 <= 0x100000000000000000,
    ensures
        r is Some <==> spec_cross(a1 as int, b1 as int, a2 as int, b2 as int) != 0,
        match r {
            Some(p) => {
                let d = spec_cross(a1 as int, b1 as int, a2 as int, b2 as int);
                &&& p.0.den > 0
                &&& p.1.den > 0
                &&& if d > 0 {
                    &&& p.0.num == c1 * b2 - c2 * b1
                    &&& p.0.den == d
                    &&& p.1.num == a1 * c2 - a2 * c1
                    &&& p.1.den == d
                } else {
                    &&& p.0.num == -(c1 * b2 - c2 * b1)
                    &&& p.0.den == -d
                    &&& p.1.num == -(a1 * c2 - a2 * c1)
                    &&& p.1.den == -d
                }
            },
            None => true,
        },
{
    proof {
        lemma_coeff_prod_bound(a1 as int, b2 as int);
        lemma_coeff_prod_bound(a2 as int, b1 as int);
        lemma_mixed_prod_bound(b2 as int, c1 as int);
        lemma_mixed_prod_bound(b1 as int, c2 as int);
        lemma_mixed_prod_bound(a1 as int, c2 as int);
        lemma_mixed_prod_bound(a2 as int, c1 as int);
    }
    let d: i128 = a1 * b2 - a2 * b1;
    proof {
        assert((a2 as int) * (b1 as int) == (b1 as int) * (a2 as int)) by (nonlinear_arith);
    }
    if d == 0 {
        return None;
    }
    let x_num: i128 = c1 * b2 - c2 * b1;
    let y_num: i128 = a1 * c2 - a2 * c1;
    if d > 0 {
        Some((Rational { num: x_num, den: d }, Rational { num: y_num, den: d }))
    } else {
        Some((Rational { num: -x_num, den: -d }, Rational { num: -y_num, den: -d }))
    }
}

proof fn lemma_coeff_prod_bound(a: int, b: int)
    requires
        -0x200000000000000 <= a <= 0x200000000000000,
        -0x200000000000000 <= b <= 0x200000000000000,
    ensures
        -0x40000000000000000000000000000 <= a * b <= 0x40000000000000000000000000000,
{
    assert(-0x40000000000000000000000000000 <= a * b <= 0x40000000000000000000000000000)
        by (nonlinear_arith)
        requires
            -0x200000000000000 <= a <= 0x200000000000000,
            -0x200000000000000 <= b <= 0x200000000000000,
    ;
}

proof fn lemma_mixed_prod_bound(a: int, c: int)
    requires
        -0x200000000000000 <= a <= 0x200000000000000,
        -0x100000000000000000 <= c <= 0x100000000000000000,
    ensures
        -0x20000000000000000000000000000000 <= a * c <= 0x20000000000000000000000000000000,
{
    assert(-0x20000000000000000000000000000000 <= a * c <= 0x20000000000000000000000000000000)
        by (nonlinear_arith)
        requires
            -0x200000000000000 <= a <= 0x200000000000000,
            -0x100000000000000000 <= c <= 0x100000000000000000,
    ;
}

} // verus!
