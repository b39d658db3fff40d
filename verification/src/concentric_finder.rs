//! Locates a concentric finder pattern (nested rings sharing a centre, the
//! signature of formats such as Aztec) around a seed point.
//!
//! From the seed, rays are cast in the four principal directions; along each
//! ray the cells to every ring transition are counted, the ring widths are
//! held against the caller's proportional template, an edge trace fits a
//! regression line along each confirmed ring boundary, and the centre
//! estimate is refined to sub-cell accuracy from the outermost confirmed
//! edges of opposite rays.  Whenever a ray leaves the grid before confirming enough
//! transitions, or any ray's ring widths are rejected by the template, the
//! result is `NotFound`: a partial or incoherent geometry is never returned.

use vstd::prelude::*;
use crate::direction::Direction;
use crate::edge_tracer::{EdgeTracer, TraceState, spec_fresh_trace};
use crate::fast_edge_to_edge_counter::{
    FastEdgeToEdgeCounter,
    lemma_steps_endpoint_in_bounds,
    spec_ray_fuel,
    spec_steps_to_transition,
};
use crate::matrix::Matrix;
use crate::pattern::{Pattern, spec_rejected};
use crate::regression_line::RegressionLine;
use crate::util::Rational;

verus! {

/// The cell count from the seed to the `t`-th ring transition along `d`, or
/// `-1` when the ray leaves the grid first.
pub open spec fn spec_ray_count(img: Matrix, x: int, y: int, d: Direction, t: int) -> int {
    match spec_steps_to_transition(img, x, y, d, t, spec_ray_fuel(img) as nat) {
        Some(c) => c,
        None => -1,
    }
}

/// Whether the ray from `(x, y)` along `d` confirms `k` ring transitions
/// inside the grid.
pub open spec fn spec_ray_reaches(img: Matrix, x: int, y: int, d: Direction, k: int) -> bool {
    spec_steps_to_transition(img, x, y, d, k, spec_ray_fuel(img) as nat) is Some
}

/// The width of the `t`-th ring along the ray: the cells between the
/// `t-1`-th and the `t`-th transition.
pub open spec fn spec_run(img: Matrix, x: int, y: int, d: Direction, t: int) -> int {
    spec_ray_count(img, x, y, d, t) - spec_ray_count(img, x, y, d, t - 1)
}

/// The `k` ring widths observed along the ray.
pub open spec fn spec_ray_runs(img: Matrix, x: int, y: int, d: Direction, k: int) -> Seq<u16> {
    Seq::new(k as nat, |i: int| spec_run(img, x, y, d, i + 1) as u16)
}

/// A ray confirms the pattern when it reaches all `k` transitions and its
/// ring widths stay within the template's tolerance.
pub open spec fn spec_ray_ok(
    img: Matrix,
    x: int,
    y: int,
    d: Direction,
    k: int,
    template: Seq<u16>,
    vnum: int,
    vden: int,
) -> bool {
    spec_ray_reaches(img, x, y, d, k) && !spec_rejected(
        spec_ray_runs(img, x, y, d, k),
        template,
        vnum,
        vden,
    )
}

/// The step budget of each ring-boundary edge trace: the most points one
/// regression line can hold.
pub const EDGE_TRACE_BUDGET: u32 = 4096;

/// A confirmed concentric pattern: a sub-cell centre estimate, the number of
/// confirmed rings, the ring widths seen along the four rays, and one fitted
/// edge line per concentric transition, ordered innermost first.  Each edge
/// line is the regression line an edge trace accumulated along that ring
/// boundary, started just outside the transition on the rightward ray.
pub struct ConcentricPattern {
    pub center_x: Rational,
    pub center_y: Rational,
    pub rings: u32,
    pub runs_right: Vec<u16>,
    pub runs_left: Vec<u16>,
    pub runs_down: Vec<u16>,
    pub runs_up: Vec<u16>,
    pub edge_lines: Vec<RegressionLine>,
}

pub enum LocateResult {
    Found(ConcentricPattern),
    NotFound,
}

/// Counting to a later transition passes every earlier one: the counts
/// exist and grow strictly.
pub proof fn lemma_steps_monotone(img: Matrix, x: int, y: int, d: Direction, n: int, fuel: nat)
    requires
        n >= 1,
        spec_steps_to_transition(img, x, y, d, n, fuel) is Some,
    ensures
        spec_steps_to_transition(img, x, y, d, n - 1, fuel) is Some,
        spec_steps_to_transition(img, x, y, d, n - 1, fuel)->Some_0 < spec_steps_to_transition(
            img,
            x,
            y,
            d,
            n,
            fuel,
        )->Some_0,
        spec_steps_to_transition(img, x, y, d, n, fuel)->Some_0 >= 1,
    decreases fuel,
{
    let dv = d.spec_vector();
    let nx = x + dv.0;
    let ny = y + dv.1;
    assert(fuel > 0);
    assert(img.in_bounds(nx, ny));
    if img.spec_black(x, y) != img.spec_black(nx, ny) {
        if n == 1 {
            assert(spec_steps_to_transition(img, nx, ny, d, 0, (fuel - 1) as nat) == Some(0int));
            assert(spec_steps_to_transition(img, x, y, d, 1, fuel) == Some(1int));
            assert(spec_steps_to_transition(img, x, y, d, 0, fuel) == Some(0int));
        } else {
            lemma_steps_monotone(img, nx, ny, d, n - 1, (fuel - 1) as nat);
        }
    } else {
        lemma_steps_monotone(img, nx, ny, d, n, (fuel - 1) as nat);
    }
}

/// Every transition on the way to the `n`-th is itself reached, no further
/// out than the `n`-th.
pub proof fn lemma_steps_monotone_le(
    img: Matrix,
    x: int,
    y: int,
    d: Direction,
    t: int,
    n: int,
    fuel: nat,
)
    requires
        1 <= t <= n,
        spec_steps_to_transition(img, x, y, d, n, fuel) is Some,
    ensures
        spec_steps_to_transition(img, x, y, d, t, fuel) is Some,
        spec_steps_to_transition(img, x, y, d, t, fuel)->Some_0 <= spec_steps_to_transition(
            img,
            x,
            y,
            d,
            n,
            fuel,
        )->Some_0,
    decreases n - t,
{
    if t == n {
    } else {
        lemma_steps_monotone(img, x, y, d, n, fuel);
        lemma_steps_monotone_le(img, x, y, d, t, n - 1, fuel);
    }
}

/// Scans one ray: the `k` ring widths and the distance to the outermost
/// transition, or `None` when the grid boundary comes first.
fn scan_ray(img: &Matrix, x: i64, y: i64, d: Direction, k: u32) -> (r: Option<(Vec<u16>, u32)>)
    requires
        img.wf(),
        img.in_bounds(x as int, y as int),
        1 <= k <= 0x8000,
        spec_ray_fuel(*img) <= 0xffff,
    ensures
        match r {
            Some(p) => {
                &&& spec_ray_reaches(*img, x as int, y as int, d, k as int)
                &&& p.1 == spec_ray_count(*img, x as int, y as int, d, k as int)
                &&& 1 <= p.1 <= 0xffff
                &&& p.0@ == spec_ray_runs(*img, x as int, y as int, d, k as int)
            },
            None => !spec_ray_reaches(*img, x as int, y as int, d, k as int),
        },
{
    let mut runs: Vec<u16> = Vec::new();
    let mut prev: u32 = 0;
    let mut t: u32 = 1;
    while t <= k
        invariant
            img.wf(),
            img.in_bounds(x as int, y as int),
            1 <= k <= 0x8000,
            spec_ray_fuel(*img) <= 0xffff,
            1 <= t <= k + 1,
            runs.len() == t - 1,
            t >= 2 ==> spec_ray_reaches(*img, x as int, y as int, d, t - 1),
            prev == if t == 1 {
                0int
            } else {
                spec_ray_count(*img, x as int, y as int, d, t - 1)
            },
            prev <= 0xffff,
            t >= 2 ==> prev >= 1,
            forall|j: int|
                0 <= j < t - 1 ==> runs@[j] == spec_run(*img, x as int, y as int, d, j + 1) as u16
                    && 1 <= runs@[j],
        decreases k + 1 - t,
    {
        let c = match FastEdgeToEdgeCounter::count_edge_to_edge(img, x, y, d, t) {
            Some(c) => c,
            None => {
                proof {
                    if spec_ray_reaches(*img, x as int, y as int, d, k as int) {
                        lemma_steps_monotone_le(
                            *img,
                            x as int,
                            y as int,
                            d,
                            t as int,
                            k as int,
                            spec_ray_fuel(*img) as nat,
                        );
                    }
                }
                return None;
            },
        };
        proof {
            lemma_steps_monotone(
                *img,
                x as int,
                y as int,
                d,
                t as int,
                spec_ray_fuel(*img) as nat,
            );
            if t == 1 {
                assert(spec_steps_to_transition(
                    *img,
                    x as int,
                    y as int,
                    d,
                    0,
                    spec_ray_fuel(*img) as nat,
                ) == Some(0int));
            }
        }
        runs.push((c - prev) as u16);
        prev = c;
        t = t + 1;
    }
    proof {
        assert(runs@ =~= spec_ray_runs(*img, x as int, y as int, d, k as int));
    }
    Some((runs, prev))
}

pub struct ConcentricFinder;

impl ConcentricFinder {
    /// Locates a concentric pattern of `min_rings` rings around the seed.
    ///
    /// Four rays are cast from the seed; each must confirm `2 * min_rings`
    /// ring transitions inside the grid with widths accepted by `template`
    /// under tolerance `variance_num / variance_den`.  An edge trace is then
    /// run along each confirmed ring boundary, starting just outside its
    /// transition on the rightward ray and heading down, and the regression
    /// line it accumulates is returned for that transition.  The centre is
    /// the midpoint of the outermost confirmed edges of opposite rays, exact
    /// to half a cell.  Any failed ray yields `NotFound`, never a partial
    /// geometry.  The grid-size limit is a machine limit for the run-width
    /// and line-fitting arithmetic.
    pub fn locate(
        img: &Matrix,
        seed_x: i64,
        seed_y: i64,
        min_rings: u32,
        template: &Vec<u16>,
        variance_num: u32,
        variance_den: u32,
    ) -> (r: LocateResult)
        requires
            img.wf(),
            img.in_bounds(seed_x as int, seed_y as int),
            1 <= min_rings <= 0x4000,
            template.len() == 2 * min_rings,
            variance_den >= 1,
            img.spec_width() <= 1024,
            img.spec_height() <= 1024,
        ensures
            ({
                let k = 2 * min_rings as int;
                let x = seed_x as int;
                let y = seed_y as int;
                let all_ok = {
                    &&& spec_ray_ok(*img, x, y, Direction::Right, k, template@, variance_num as int, variance_den as int)
                    &&& spec_ray_ok(*img, x, y, Direction::Left, k, template@, variance_num as int, variance_den as int)
                    &&& spec_ray_ok(*img, x, y, Direction::Down, k, template@, variance_num as int, variance_den as int)
                    &&& spec_ray_ok(*img, x, y, Direction::Up, k, template@, variance_num as int, variance_den as int)
                };
                match r {
                    LocateResult::Found(p) => {
                        &&& all_ok
                        &&& p.rings == min_rings
                        &&& p.center_x.num == 2 * x + spec_ray_count(*img, x, y, Direction::Right, k)
                            - spec_ray_count(*img, x, y, Direction::Left, k)
                        &&& p.center_x.den == 2
                        &&& p.center_y.num == 2 * y + spec_ray_count(*img, x, y, Direction::Down, k)
                            - spec_ray_count(*img, x, y, Direction::Up, k)
                        &&& p.center_y.den == 2
                        &&& p.runs_right@ == spec_ray_runs(*img, x, y, Direction::Right, k)
                        &&& p.runs_left@ == spec_ray_runs(*img, x, y, Direction::Left, k)
                        &&& p.runs_down@ == spec_ray_runs(*img, x, y, Direction::Down, k)
                        &&& p.runs_up@ == spec_ray_runs(*img, x, y, Direction::Up, k)
                        &&& p.edge_lines@.len() == k
                        &&& forall|t: int|
                            0 <= t < k ==> {
                                let c = spec_ray_count(*img, x, y, Direction::Right, t + 1);
                                let run = spec_fresh_trace(
                                    *img,
                                    x + c,
                                    y,
                                    Direction::Down,
                                    EDGE_TRACE_BUDGET as int,
                                );
                                &&& (#[trigger] p.edge_lines@[t]).wf()
                                &&& p.edge_lines@[t].spec_points() == run.1.points
                            }
                    },
                    LocateResult::NotFound => !all_ok,
                }
            }),
    {
        let k: u32 = 2 * min_rings;
        let right = match scan_ray(img, seed_x, seed_y, Direction::Right, k) {
            Some(p) => p,
            None => {
                return LocateResult::NotFound;
            },
        };
        let left = match scan_ray(img, seed_x, seed_y, Direction::Left, k) {
            Some(p) => p,
            None => {
                return LocateResult::NotFound;
            },
        };
        let down = match scan_ray(img, seed_x, seed_y, Direction::Down, k) {
            Some(p) => p,
            None => {
                return LocateResult::NotFound;
            },
        };
        let up = match scan_ray(img, seed_x, seed_y, Direction::Up, k) {
            Some(p) => p,
            None => {
                return LocateResult::NotFound;
            },
        };
        if Pattern::match_against(&right.0, template, variance_num, variance_den).is_none() {
            return LocateResult::NotFound;
        }
        if Pattern::match_against(&left.0, template, variance_num, variance_den).is_none() {
            return LocateResult::NotFound;
        }
        if Pattern::match_against(&down.0, template, variance_num, variance_den).is_none() {
            return LocateResult::NotFound;
        }
        if Pattern::match_against(&up.0, template, variance_num, variance_den).is_none() {
            return LocateResult::NotFound;
        }
        let center_x = Rational {
            num: 2 * (seed_x as i128) + (right.1 as i128) - (left.1 as i128),
            den: 2,
        };
        let center_y = Rational {
            num: 2 * (seed_y as i128) + (down.1 as i128) - (up.1 as i128),
            den: 2,
        };
        let ghost fuel0 = spec_ray_fuel(*img) as nat;
        let mut edge_lines: Vec<RegressionLine> = Vec::new();
        let mut t: u32 = 1;
        while t <= k
            invariant
                img.wf(),
                img.in_bounds(seed_x as int, seed_y as int),
                img.spec_width() <= 1024,
                img.spec_height() <= 1024,
                1 <= k <= 0x8000,
                1 <= t <= k + 1,
                fuel0 == spec_ray_fuel(*img) as nat,
                spec_ray_reaches(*img, seed_x as int, seed_y as int, Direction::Right, k as int),
                edge_lines.len() == t - 1,
                forall|j: int|
                    0 <= j < t - 1 ==> {
                        let c = spec_ray_count(
                            *img,
                            seed_x as int,
                            seed_y as int,
                            Direction::Right,
                            j + 1,
                        );
                        let run = spec_fresh_trace(
                            *img,
                            seed_x as int + c,
                            seed_y as int,
                            Direction::Down,
                            EDGE_TRACE_BUDGET as int,
                        );
                        &&& (#[trigger] edge_lines@[j]).wf()
                        &&& edge_lines@[j].spec_points() == run.1.points
                    },
            decreases k + 1 - t,
        {
            let c = match FastEdgeToEdgeCounter::count_edge_to_edge(
                img,
                seed_x,
                seed_y,
                Direction::Right,
                t,
            ) {
                Some(c) => c,
                None => {
                    proof {
                        lemma_steps_monotone_le(
                            *img,
                            seed_x as int,
                            seed_y as int,
                            Direction::Right,
                            t as int,
                            k as int,
                            fuel0,
                        );
                        assert(false);
                    }
                    return LocateResult::NotFound;
                },
            };
            proof {
                lemma_steps_endpoint_in_bounds(
                    *img,
                    seed_x as int,
                    seed_y as int,
                    Direction::Right,
                    t as int,
                    fuel0,
                );
            }
            let mut tracer = EdgeTracer::new(
                img,
                seed_x + c as i64,
                seed_y,
                Direction::Down,
                EDGE_TRACE_BUDGET,
            );
            proof {
                assert(tracer.spec_line().spec_points() =~= Seq::<(int, int)>::empty());
                assert(tracer.spec_state() == TraceState {
                    pos: (seed_x as int + c as int, seed_y as int),
                    dir: Direction::Down,
                    points: Seq::<(int, int)>::empty(),
                    steps: 0,
                    turns: 0,
                });
            }
            tracer.trace();
            proof {
                assert(tracer.spec_state() == spec_fresh_trace(
                    *img,
                    seed_x as int + c as int,
                    seed_y as int,
                    Direction::Down,
                    EDGE_TRACE_BUDGET as int,
                ).1);
            }
            edge_lines.push(tracer.into_line());
            t = t + 1;
        }
        LocateResult::Found(
            ConcentricPattern {
                center_x,
                center_y,
                rings: min_rings,
                runs_right: right.0,
                runs_left: left.0,
                runs_down: down.0,
                runs_up: up.0,
                edge_lines,
            },
        )
    }
}

} // verus!
