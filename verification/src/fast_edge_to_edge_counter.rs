//! A cheap, allocation-free scan that counts grid cells along a ray until
//! the n-th colour transition, used for fast module-size estimation before
//! committing to full edge tracing.  No line fitting, no state retained.

use vstd::prelude::*;
use crate::direction::Direction;
use crate::matrix::Matrix;

verus! {

/// The number of cells stepped from `(x, y)` along `d` until the `n`-th
/// black/white transition, or `None` when the ray leaves the grid first (or
/// the fuel, the longest possible in-grid ray, is exhausted).  A transition
/// lies between two adjacent in-grid cells of different colour.
pub open spec fn spec_steps_to_transition(
    img: Matrix,
    x: int,
    y: int,
    d: Direction,
    n: int,
    fuel: nat,
) -> Option<int>
    decreases fuel,
{
    if n <= 0 {
        Some(0)
    } else if fuel == 0 {
        None
    } else {
        let dv = d.spec_vector();
        let nx = x + dv.0;
        let ny = y + dv.1;
        if !img.in_bounds(nx, ny) {
            None
        } else {
            let rest = if img.spec_black(x, y) != img.spec_black(nx, ny) {
                spec_steps_to_transition(img, nx, ny, d, n - 1, (fuel - 1) as nat)
            } else {
                spec_steps_to_transition(img, nx, ny, d, n, (fuel - 1) as nat)
            };
            match rest {
                Some(s) => Some(s + 1),
                None => None,
            }
        }
    }
}

/// The fuel that lets every in-grid ray run to the boundary: no straight ray
/// fits more steps than the two grid dimensions together.
pub open spec fn spec_ray_fuel(img: Matrix) -> int {
    img.spec_width() + img.spec_height()
}

/// A successful count ends on a grid cell: the position `count` steps along
/// the ray is in bounds.
pub proof fn lemma_steps_endpoint_in_bounds(
    img: Matrix,
    x: int,
    y: int,
    d: Direction,
    n: int,
    fuel: nat,
)
    requires
        n >= 1,
        spec_steps_to_transition(img, x, y, d, n, fuel) is Some,
    ensures
        ({
            let c = spec_steps_to_transition(img, x, y, d, n, fuel)->Some_0;
            let dv = d.spec_vector();
            img.in_bounds(x + c * dv.0, y + c * dv.1)
        }),
    decreases fuel,
{
    let dv = d.spec_vector();
    let nx = x + dv.0;
    let ny = y + dv.1;
    let c = spec_steps_to_transition(img, x, y, d, n, fuel)->Some_0;
    if img.spec_black(x, y) != img.spec_black(nx, ny) {
        if n == 1 {
            assert(c == 1);
        } else {
            lemma_steps_endpoint_in_bounds(img, nx, ny, d, n - 1, (fuel - 1) as nat);
            assert(nx + (c - 1) * dv.0 == x + c * dv.0) by (nonlinear_arith)
                requires
                    nx == x + dv.0,
            ;
            assert(ny + (c - 1) * dv.1 == y + c * dv.1) by (nonlinear_arith)
                requires
                    ny == y + dv.1,
            ;
        }
    } else {
        lemma_steps_endpoint_in_bounds(img, nx, ny, d, n, (fuel - 1) as nat);
        assert(nx + (c - 1) * dv.0 == x + c * dv.0) by (nonlinear_arith)
            requires
                nx == x + dv.0,
        ;
        assert(ny + (c - 1) * dv.1 == y + c * dv.1) by (nonlinear_arith)
            requires
                ny == y + dv.1,
        ;
    }
}

pub struct FastEdgeToEdgeCounter;

impl FastEdgeToEdgeCounter {
    /// Scans from `(x, y)` along `d`, counting cells until the `n`-th colour
    /// transition; `None` when the grid boundary comes first.
    pub fn count_edge_to_edge(img: &Matrix, x: i64, y: i64, d: Direction, n: u32) -> (r: Option<
        u32,
    >)
        requires
            img.wf(),
            img.in_bounds(x as int, y as int),
            1 <= n,
        ensures
            match r {
                Some(c) => {
                    &&& spec_steps_to_transition(
                        *img,
                        x as int,
                        y as int,
                        d,
                        n as int,
                        spec_ray_fuel(*img) as nat,
                    ) == Some(c as int)
                    &&& 1 <= c <= spec_ray_fuel(*img)
                },
                None => spec_steps_to_transition(
                    *img,
                    x as int,
                    y as int,
                    d,
                    n as int,
                    spec_ray_fuel(*img) as nat,
                ) is None,
            },
    {
        proof {
            img.lemma_wf_bounds();
        }
        let fuel: u32 = (img.width() as u32) + (img.height() as u32);
        let (dx, dy) = d.as_vector();
        let mut cx: i64 = x;
        let mut cy: i64 = y;
        let mut rem: u32 = n;
        let mut k: u32 = 0;
        let ghost fuel0 = spec_ray_fuel(*img) as nat;
        while k < fuel
            invariant
                img.wf(),
                fuel == spec_ray_fuel(*img),
                fuel0 == spec_ray_fuel(*img) as nat,
                img.in_bounds(cx as int, cy as int),
                (dx as int, dy as int) == d.spec_vector(),
                k <= fuel,
                1 <= rem <= n,
                spec_steps_to_transition(*img, x as int, y as int, d, n as int, fuel0) == (
                match spec_steps_to_transition(
                    *img,
                    cx as int,
                    cy as int,
                    d,
                    rem as int,
                    (fuel0 - k) as nat,
                ) {
                    Some(s) => Some(s + k),
                    None => None::<int>,
                }),
            decreases fuel - k,
        {
            proof {
                img.lemma_wf_bounds();
            }
            let nx: i64 = cx + dx as i64;
            let ny: i64 = cy + dy as i64;
            let new_cell = img.get(nx, ny);
            if new_cell.is_none() {
                return None;
            }
            let cur_cell = img.get(cx, cy);
            let cur_black: bool = cur_cell.unwrap() != 0;
            let new_black: bool = new_cell.unwrap() != 0;
            k = k + 1;
            if cur_black != new_black {
                rem = rem - 1;
                if rem == 0 {
                    proof {
                        let fr = (fuel0 - (k - 1)) as nat;
                        let dv = d.spec_vector();
                        assert(fr >= 1);
                        assert(img.in_bounds(cx as int + dv.0, cy as int + dv.1));
                        assert(img.spec_black(cx as int, cy as int) != img.spec_black(
                            cx as int + dv.0,
                            cy as int + dv.1,
                        ));
                        assert(spec_steps_to_transition(
                            *img,
                            cx as int + dv.0,
                            cy as int + dv.1,
                            d,
                            0int,
                            (fr - 1) as nat,
                        ) == Some(0int));
                        assert(spec_steps_to_transition(*img, cx as int, cy as int, d, 1int, fr)
                            == Some(1int));
                    }
                    return Some(k);
                }
            }
            cx = nx;
            cy = ny;
        }
        None
    }
}

} // verus!
