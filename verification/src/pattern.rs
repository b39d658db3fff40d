//! A reusable run-length template matcher.
//!
//! A pattern is defined by proportional run widths rather than exact pixel
//! counts: a template gives the expected relative width of each alternating
//! run, and a candidate is an observed sequence of run lengths of equal
//! count.  A candidate is accepted when every interior run's ratio stays
//! within a relative tolerance of the template's; the first and last runs
//! (typically quiet-zone runs) are exempt.  Accepted candidates get a score,
//! lower is better, `0` for a candidate in the template's exact proportions.
//!
//! All ratio comparisons are cross-multiplied, so the arithmetic is exact:
//! run `i` deviates by `|observed[i]*Te - template[i]*To|` where `To` and
//! `Te` are the two totals, and it is within tolerance `num/den` when that
//! deviation times `den` is at most `template[i]*To*num`.

use vstd::prelude::*;

verus! {

/// The sum of a sequence of run lengths.
pub open spec fn sum_runs(s: Seq<u16>) -> int
    decreases s.len(),
{
    if s.len() == 0 {
        0
    } else {
        sum_runs(s.drop_last()) + s.last()
    }
}

pub open spec fn abs_int(x: int) -> int {
    if x >= 0 {
        x
    } else {
        -x
    }
}

/// The cross-multiplied deviation of run `i` from the template's proportion.
pub open spec fn spec_deviation(observed: Seq<u16>, template: Seq<u16>, i: int) -> int {
    abs_int(observed[i] * sum_runs(template) - template[i] * sum_runs(observed))
}

/// Whether some interior run deviates beyond the tolerance `vnum / vden`.
pub open spec fn spec_rejected(observed: Seq<u16>, template: Seq<u16>, vnum: int, vden: int) -> bool {
    exists|i: int|
        1 <= i < observed.len() - 1 && #[trigger] spec_deviation(observed, template, i) * vden
            > template[i] * sum_runs(observed) * vnum
}

/// The total deviation of the interior runs with index below `upto`.
pub open spec fn spec_score(observed: Seq<u16>, template: Seq<u16>, upto: int) -> int
    decreases upto,
{
    if upto <= 1 {
        0
    } else {
        spec_score(observed, template, upto - 1) + spec_deviation(observed, template, upto - 1)
    }
}

/// Run sums are non-negative and bounded by the run count times the largest
/// run length.
pub proof fn lemma_sum_runs_bounds(s: Seq<u16>)
    ensures
        0 <= sum_runs(s) <= s.len() * 0xffff,
    decreases s.len(),
{
    if s.len() > 0 {
        lemma_sum_runs_bounds(s.drop_last());
    }
}

/// A run-length template matcher.
pub struct Pattern;

impl Pattern {
    /// Scores how well `observed` matches the proportions of `template`
    /// under relative tolerance `variance_num / variance_den`.
    ///
    /// Returns `None` exactly when some interior run deviates beyond the
    /// tolerance, else the total interior deviation: lower is better, and a
    /// candidate in the template's exact proportions scores `0`.  The length
    /// cap is a machine limit that keeps the exact arithmetic in range.
    pub fn match_against(
        observed: &Vec<u16>,
        template: &Vec<u16>,
        variance_num: u32,
        variance_den: u32,
    ) -> (r: Option<u128>)
        requires
            observed.len() == template.len(),
            observed.len() <= 0x1_0000_0000,
            variance_den >= 1,
        ensures
            r is None <==> spec_rejected(
                observed@,
                template@,
                variance_num as int,
                variance_den as int,
            ),
            match r {
                Some(score) => score == spec_score(observed@, template@, observed@.len() - 1),
                None => true,
            },
    {
        let n = observed.len();
        let total_observed: u64 = Pattern::sum(observed);
        let total_template: u64 = Pattern::sum(template);
        proof {
            lemma_sum_runs_bounds(observed@);
            lemma_sum_runs_bounds(template@);
            assert(observed@.len() * 0xffff <= 0x1_0000_0000 * 0xffff) by (nonlinear_arith)
                requires
                    observed@.len() <= 0x1_0000_0000,
            ;
            assert(template@.len() * 0xffff <= 0x1_0000_0000 * 0xffff) by (nonlinear_arith)
                requires
                    template@.len() <= 0x1_0000_0000,
            ;
        }
        if n < 3 {
            return Some(0);
        }
        let mut score: u128 = 0;
        let mut i: usize = 1;
        while i < n - 1
            invariant
                observed.len() == n,
                template.len() == n,
                3 <= n <= 0x1_0000_0000,
                variance_den >= 1,
                1 <= i <= n - 1,
                total_observed == sum_runs(observed@),
                total_template == sum_runs(template@),
                0 <= sum_runs(observed@) <= 0xffff_0000_0000,
                0 <= sum_runs(template@) <= 0xffff_0000_0000,
                forall|k: int|
                    1 <= k < i ==> !(#[trigger] spec_deviation(observed@, template@, k) * (
                    variance_den as int) > template@[k] * sum_runs(observed@) * (
                    variance_num as int)),
                score == spec_score(observed@, template@, i as int),
                score <= (i - 1) * ((0xffff * 0xffff_0000_0000) as int),
            decreases n - i,
        {
            proof {
                assert(0 <= observed@[i as int] * sum_runs(template@) <= 0xffff
                    * 0xffff_0000_0000) by (nonlinear_arith)
                    requires
                        0 <= observed@[i as int] <= 0xffff,
                        0 <= sum_runs(template@) <= 0xffff_0000_0000,
                ;
                assert(0 <= template@[i as int] * sum_runs(observed@) <= 0xffff
                    * 0xffff_0000_0000) by (nonlinear_arith)
                    requires
                        0 <= template@[i as int] <= 0xffff,
                        0 <= sum_runs(observed@) <= 0xffff_0000_0000,
                ;
            }
            let obs_scaled: u128 = (observed[i] as u128) * (total_template as u128);
            let exp_scaled: u128 = (template[i] as u128) * (total_observed as u128);
            let dev: u128 = if obs_scaled >= exp_scaled {
                obs_scaled - exp_scaled
            } else {
                exp_scaled - obs_scaled
            };
            proof {
                assert(dev == spec_deviation(observed@, template@, i as int));
                assert(dev * (variance_den as int) <= (0xffff * 0xffff_0000_0000)
                    * 0xffff_ffff) by (nonlinear_arith)
                    requires
                        0 <= dev <= 0xffff * 0xffff_0000_0000,
                        0 <= variance_den <= 0xffff_ffff,
                ;
                assert(0 <= exp_scaled * (variance_num as int) <= (0xffff * 0xffff_0000_0000)
                    * 0xffff_ffff) by (nonlinear_arith)
                    requires
                        0 <= exp_scaled <= 0xffff * 0xffff_0000_0000,
                        0 <= variance_num <= 0xffff_ffff,
                ;
            }
            let lhs: u128 = dev * (variance_den as u128);
            let rhs: u128 = exp_scaled * (variance_num as u128);
            if lhs > rhs {
                proof {
                    assert(exp_scaled * (variance_num as int) == template@[i as int] * sum_runs(
                        observed@,
                    ) * (variance_num as int)) by (nonlinear_arith)
                        requires
                            exp_scaled == template@[i as int] * sum_runs(observed@),
                    ;
                    assert(spec_rejected(
                        observed@,
                        template@,
                        variance_num as int,
                        variance_den as int,
                    ));
                }
                return None;
            }
            proof {
                assert(exp_scaled * (variance_num as int) == template@[i as int] * sum_runs(
                    observed@,
                ) * (variance_num as int)) by (nonlinear_arith)
                    requires
                        exp_scaled == template@[i as int] * sum_runs(observed@),
                ;
                assert((i - 1) * ((0xffff * 0xffff_0000_0000) as int) + (0xffff
                    * 0xffff_0000_0000) == i * ((0xffff * 0xffff_0000_0000) as int))
                    by (nonlinear_arith);
                assert(i * ((0xffff * 0xffff_0000_0000) as int) <= 0x1_0000_0000 * ((0xffff
                    * 0xffff_0000_0000) as int)) by (nonlinear_arith)
                    requires
                        i <= 0x1_0000_0000,
                ;
            }
            score = score + dev;
            i += 1;
        }
        proof {
            if spec_rejected(observed@, template@, variance_num as int, variance_den as int) {
                let k = choose|k: int|
                    1 <= k < observed@.len() - 1 && #[trigger] spec_deviation(
                        observed@,
                        template@,
                        k,
                    ) * (variance_den as int) > template@[k] * sum_runs(observed@) * (
                    variance_num as int);
                assert(false);
            }
        }
        Some(score)
    }

    /// The sum of a vector of run lengths.
    pub fn sum(runs: &Vec<u16>) -> (r: u64)
        requires
            runs.len() <= 0x1_0000_0000,
        ensures
            r == sum_runs(runs@),
    {
        proof {
            lemma_sum_runs_bounds(runs@);
        }
        let mut acc: u64 = 0;
        let mut i: usize = 0;
        while i < runs.len()
            invariant
                runs.len() <= 0x1_0000_0000,
                i <= runs.len(),
                acc == sum_runs(runs@.subrange(0, i as int)),
                acc <= i * 0xffff,
            decreases runs.len() - i,
        {
            proof {
                let t = runs@.subrange(0, i as int + 1);
                assert(t.drop_last() =~= runs@.subrange(0, i as int));
                lemma_sum_runs_bounds(runs@.subrange(0, i as int));
                assert(i * 0xffff + 0xffff == (i + 1) * 0xffff) by (nonlinear_arith);
                assert((i + 1) * 0xffff <= 0x1_0000_0000 * 0xffff) by (nonlinear_arith)
                    requires
                        i + 1 <= 0x1_0000_0000,
                ;
            }
            acc = acc + (runs[i] as u64);
            i += 1;
        }
        proof {
            assert(runs@.subrange(0, runs.len() as int) =~= runs@);
        }
        acc
    }
}

/// A candidate in the template's exact proportions (here: equal to the
/// template itself) is never rejected, for any tolerance, and scores `0`:
/// every deviation vanishes.
pub proof fn lemma_exact_template_matches(template: Seq<u16>, vnum: int, vden: int)
    requires
        vnum >= 0,
        vden >= 1,
    ensures
        !spec_rejected(template, template, vnum, vden),
        spec_score(template, template, template.len() - 1) == 0,
{
    lemma_sum_runs_bounds(template);
    assert forall|i: int| 0 <= i < template.len() implies #[trigger] spec_deviation(
        template,
        template,
        i,
    ) == 0 by {
    }
    assert forall|i: int| 1 <= i < template.len() - 1 implies !(#[trigger] spec_deviation(
        template,
        template,
        i,
    ) * vden > template[i] * sum_runs(template) * vnum) by {
        assert(spec_deviation(template, template, i) == 0);
        assert(template[i] * sum_runs(template) * vnum >= 0) by (nonlinear_arith)
            requires
                template[i] >= 0,
                sum_runs(template) >= 0,
                vnum >= 0,
        ;
    }
    lemma_exact_score_zero(template, template.len() - 1);
}

proof fn lemma_exact_score_zero(template: Seq<u16>, upto: int)
    requires
        upto <= template.len(),
    ensures
        spec_score(template, template, upto) == 0,
    decreases upto,
{
    if upto > 1 {
        lemma_exact_score_zero(template, upto - 1);
    }
}

} // verus!
