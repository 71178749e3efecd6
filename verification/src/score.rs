//! Scoring algebra: normalization of checker-reported partial scores,
//! the awarded-score formula, and per-subtask aggregation policies.

use vstd::prelude::*;

use crate::status::{TestCaseStatus, MAX_PARTIAL};

verus! {

/// Clamps a raw partial score (in thousandths of a point, possibly
/// negative or above the scale) into the normalized `0..=100_000` range.
pub open spec fn spec_normalize_score(raw: int) -> int {
    if raw > MAX_PARTIAL {
        MAX_PARTIAL as int
    } else if raw < 0 {
        0
    } else {
        raw
    }
}

/// Normalizes a checker-reported partial score to the `0..=100` point
/// range (held in thousandths): values above the range clamp to full
/// credit, values below it to none.  `neg` marks a negative raw score of
/// magnitude `raw`.
pub fn normalize_score(neg: bool, raw: u64) -> (r: u32)
    ensures
        r == spec_normalize_score(if neg { -(raw as int) } else { raw as int }),
        r <= MAX_PARTIAL,
{
    if neg && raw > 0 {
        0
    } else if raw > MAX_PARTIAL as u64 {
        MAX_PARTIAL
    } else {
        raw as u32
    }
}

/// Points awarded for one case: full score on `AC`; on `PC(p)` the
/// fraction `p / 100_000` of the full score, rounded half up; nothing on
/// any other status.
pub open spec fn spec_awarded_score(status: TestCaseStatus, full_score: u32) -> int {
    match status {
        TestCaseStatus::AC => full_score as int,
        TestCaseStatus::PC(p) => (p * full_score + 50_000) / 100_000,
        _ => 0,
    }
}

/// The award never exceeds the case's full score.
pub proof fn lemma_awarded_score_bounded(status: TestCaseStatus, full_score: u32)
    requires
        status.wf(),
    ensures
        0 <= spec_awarded_score(status, full_score) <= full_score,
{
    if let TestCaseStatus::PC(p) = status {
        assert(p * full_score <= MAX_PARTIAL * full_score) by (nonlinear_arith)
            requires
                p <= MAX_PARTIAL,
        ;
        assert((p * full_score + 50_000) / 100_000 <= (MAX_PARTIAL * full_score + 50_000)
            / 100_000) by (nonlinear_arith)
            requires
                p * full_score <= MAX_PARTIAL * full_score,
        ;
        assert((100_000 * full_score + 50_000) / 100_000 == full_score) by (nonlinear_arith);
    }
}

/// Computes the points awarded for one case from its status and the
/// case's full score.
pub fn awarded_score(status: TestCaseStatus, full_score: u32) -> (r: u32)
    requires
        status.wf(),
    ensures
        r == spec_awarded_score(status, full_score),
        r <= full_score,
{
    proof {
        lemma_awarded_score_bounded(status, full_score);
    }
    match status {
        TestCaseStatus::AC => full_score,
        TestCaseStatus::PC(p) => (((p as u64) * (full_score as u64) + 50_000u64) / 100_000u64)
            as u32,
        _ => 0,
    }
}

/// How the awarded scores of the cases sharing a subtask combine into
/// that subtask's score.
#[derive(Debug, PartialEq, Eq, Structural, Copy, Clone)]
pub enum ScorePolicy {
    Sum,
    Max,
    Min,
}

/// Sum of a sequence of scores.
pub open spec fn spec_sum(scores: Seq<u32>) -> int
    decreases scores.len(),
{
    if scores.len() == 0 {
        0
    } else {
        spec_sum(scores.drop_last()) + scores.last()
    }
}

/// Maximum of a sequence of scores; `0` for an empty sequence.
pub open spec fn spec_max(scores: Seq<u32>) -> int
    decreases scores.len(),
{
    if scores.len() == 0 {
        0
    } else if scores.last() >= spec_max(scores.drop_last()) {
        scores.last() as int
    } else {
        spec_max(scores.drop_last())
    }
}

/// Minimum of a sequence of scores; `0` for an empty sequence.
pub open spec fn spec_min(scores: Seq<u32>) -> int
    decreases scores.len(),
{
    if scores.len() == 0 {
        0
    } else if scores.len() == 1 {
        scores.last() as int
    } else if scores.last() <= spec_min(scores.drop_last()) {
        scores.last() as int
    } else {
        spec_min(scores.drop_last())
    }
}

/// Subtask score under a policy: the arithmetic sum for `Sum`, the
/// extremum for `Max` / `Min`, and `0` for an empty case list under every
/// policy.
pub open spec fn spec_subtask_score(policy: ScorePolicy, scores: Seq<u32>) -> int {
    match policy {
        ScorePolicy::Sum => spec_sum(scores),
        ScorePolicy::Max => spec_max(scores),
        ScorePolicy::Min => spec_min(scores),
    }
}

/// An empty case list yields `0` under all three policies.
pub proof fn lemma_empty_subtask_scores_zero(policy: ScorePolicy)
    ensures
        spec_subtask_score(policy, Seq::<u32>::empty()) == 0,
{
}

/// Applies a subtask's scoring policy to the awarded scores of its cases.
pub fn subtask_score(policy: ScorePolicy, scores: &Vec<u32>) -> (r: u32)
    requires
        spec_sum(scores@) <= u32::MAX,
    ensures
        r == spec_subtask_score(policy, scores@),
{
    match policy {
        ScorePolicy::Sum => {
            let mut total: u32 = 0;
            let mut i: usize = 0;
            proof {
                lemma_sum_prefix_bounded(scores@, scores@.len() as int);
                assert(scores@.take(scores@.len() as int) =~= scores@);
            }
            while i < scores.len()
                invariant
                    i <= scores@.len(),
                    total == spec_sum(scores@.take(i as int)),
                    spec_sum(scores@) <= u32::MAX,
                    forall|k: int| 0 <= k <= scores@.len() ==> spec_sum(#[trigger] scores@.take(k)) <= spec_sum(scores@),
                decreases scores@.len() - i,
            {
                proof {
                    assert(scores@.take(i + 1).drop_last() =~= scores@.take(i as int));
                    assert(scores@.take(i + 1).last() == scores@[i as int]);
                    lemma_sum_nonneg(scores@.take(i as int));
                }
                total = total + scores[i];
                i = i + 1;
            }
            proof {
                assert(scores@.take(scores@.len() as int) =~= scores@);
            }
            total
        },
        ScorePolicy::Max => {
            let mut best: u32 = 0;
            let mut i: usize = 0;
            while i < scores.len()
                invariant
                    i <= scores@.len(),
                    best == spec_max(scores@.take(i as int)),
                decreases scores@.len() - i,
            {
                proof {
                    assert(scores@.take(i + 1).drop_last() =~= scores@.take(i as int));
                    assert(scores@.take(i + 1).last() == scores@[i as int]);
                }
                if scores[i] >= best {
                    best = scores[i];
                }
                i = i + 1;
            }
            proof {
                assert(scores@.take(scores@.len() as int) =~= scores@);
            }
            best
        },
        ScorePolicy::Min => {
            let mut worst: u32 = 0;
            let mut i: usize = 0;
            while i < scores.len()
                invariant
                    i <= scores@.len(),
                    worst == spec_min(scores@.take(i as int)),
                decreases scores@.len() - i,
            {
                proof {
                    assert(scores@.take(i + 1).drop_last() =~= scores@.take(i as int));
                    assert(scores@.take(i + 1).last() == scores@[i as int]);
                }
                if i == 0 || scores[i] <= worst {
                    worst = scores[i];
                }
                i = i + 1;
            }
            proof {
                assert(scores@.take(scores@.len() as int) =~= scores@);
            }
            worst
        },
    }
}

/// Every score is non-negative, so a sum of scores is too.
pub proof fn lemma_sum_nonneg(scores: Seq<u32>)
    ensures
        spec_sum(scores) >= 0,
    decreases scores.len(),
{
    if scores.len() > 0 {
        lemma_sum_nonneg(scores.drop_last());
    }
}

/// Every prefix sum is bounded by the sum of the whole sequence.
pub proof fn lemma_sum_prefix_bounded(scores: Seq<u32>, n: int)
    requires
        0 <= n <= scores.len(),
    ensures
        forall|k: int| 0 <= k <= n ==> spec_sum(#[trigger] scores.take(k)) <= spec_sum(scores.take(n)),
    decreases n,
{
    if n > 0 {
        lemma_sum_prefix_bounded(scores, n - 1);
        assert(scores.take(n).drop_last() =~= scores.take(n - 1));
        assert forall|k: int| 0 <= k <= n implies spec_sum(#[trigger] scores.take(k)) <= spec_sum(
            scores.take(n),
        ) by {
            if k < n {
                assert(spec_sum(scores.take(k)) <= spec_sum(scores.take(n - 1)));
            }
        }
    } else {
        assert(scores.take(0) =~= Seq::<u32>::empty());
    }
}

} // verus!

