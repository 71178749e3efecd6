//! Core of the judging orchestrator: turning the terminal statuses of a
//! tester's cases into per-case results, subtask scores and a total.
//!
//! The surrounding application compiles the tester, runs each case and
//! the checker, and hands the resulting statuses to [`judge_tester`];
//! everything that decides scores happens here.

use vstd::prelude::*;

use crate::score::{
    awarded_score, lemma_awarded_score_bounded, lemma_sum_nonneg, spec_awarded_score,
    spec_subtask_score, spec_sum, subtask_score, ScorePolicy,
};
use crate::status::TestCaseStatus;
use vstd::multiset::Multiset;

verus! {

/// One test-data item of a problem, as the judge sees it: its id, the
/// points it is worth, and the subtask it belongs to.
#[derive(Debug, PartialEq, Eq, Structural, Copy, Clone)]
pub struct ExpandedDataItem {
    pub id: u32,
    pub score: u32,
    pub subtask: u32,
}

/// One declared subtask: its id and the policy combining its cases.
#[derive(Debug, PartialEq, Eq, Structural, Copy, Clone)]
pub struct SubtaskPolicy {
    pub id: u32,
    pub policy: ScorePolicy,
}

/// Result of one (tester, data item) pair.
#[derive(Debug, PartialEq, Eq, Structural, Copy, Clone)]
pub struct IndividualTestCaseResult {
    pub test_case_id: u32,
    pub status: TestCaseStatus,
    pub score: u32,
    pub max_score: u32,
}

/// Everything recorded about one tester once its cases have run (or
/// immediately, when its source failed to compile).
#[derive(Debug)]
pub struct ProblemTestResult {
    pub tester_name: String,
    pub test_case_results: Vec<IndividualTestCaseResult>,
    pub total_score: u32,
    pub max_possible_score: u32,
}

/// Arguments of the judging command.
#[derive(Debug, PartialEq, Eq, Structural, Copy, Clone)]
pub struct TestArgs {}

/// Whether some declared subtask carries this id.
pub open spec fn spec_declared(subtasks: Seq<SubtaskPolicy>, id: u32) -> bool {
    exists|k: int| 0 <= k < subtasks.len() && subtasks[k].id == id
}

/// Subtask ids are declared at most once.
pub open spec fn spec_unique_ids(subtasks: Seq<SubtaskPolicy>) -> bool {
    forall|a: int, b: int|
        0 <= a < b < subtasks.len() ==> subtasks[a].id != subtasks[b].id
}

/// The items that survive configuration checking: those whose subtask is
/// declared.  Items referencing an undeclared subtask are dropped (the
/// application logs a warning for each), in order.
pub open spec fn spec_resolved(
    items: Seq<ExpandedDataItem>,
    subtasks: Seq<SubtaskPolicy>,
) -> Seq<ExpandedDataItem>
    decreases items.len(),
{
    if items.len() == 0 {
        Seq::empty()
    } else {
        let rest = spec_resolved(items.drop_last(), subtasks);
        if spec_declared(subtasks, items.last().subtask) {
            rest.push(items.last())
        } else {
            rest
        }
    }
}

/// Sum of the full scores of a list of items.
pub open spec fn spec_total_max(items: Seq<ExpandedDataItem>) -> int
    decreases items.len(),
{
    if items.len() == 0 {
        0
    } else {
        spec_total_max(items.drop_last()) + items.last().score
    }
}

/// Awarded scores of the items belonging to one subtask, in item order.
pub open spec fn spec_awards_for(
    items: Seq<ExpandedDataItem>,
    statuses: Seq<TestCaseStatus>,
    id: u32,
) -> Seq<u32>
    decreases items.len(),
    when items.len() == statuses.len()
{
    if items.len() == 0 {
        Seq::empty()
    } else {
        let rest = spec_awards_for(items.drop_last(), statuses.drop_last(), id);
        if items.last().subtask == id {
            rest.push(spec_awarded_score(statuses.last(), items.last().score) as u32)
        } else {
            rest
        }
    }
}

/// Total score: the subtask scores of all declared subtasks, in
/// declaration order, added up.
pub open spec fn spec_total_score(
    items: Seq<ExpandedDataItem>,
    statuses: Seq<TestCaseStatus>,
    subtasks: Seq<SubtaskPolicy>,
) -> int
    decreases subtasks.len(),
{
    if subtasks.len() == 0 {
        0
    } else {
        spec_total_score(items, statuses, subtasks.drop_last()) + spec_subtask_score(
            subtasks.last().policy,
            spec_awards_for(items, statuses, subtasks.last().id),
        )
    }
}

/// Every status of a judged sequence keeps its partial score in range.
pub open spec fn spec_statuses_wf(statuses: Seq<TestCaseStatus>) -> bool {
    forall|k: int| 0 <= k < statuses.len() ==> (#[trigger] statuses[k]).wf()
}

/// Decides whether an id is declared among the subtasks.
pub fn subtask_declared(subtasks: &Vec<SubtaskPolicy>, id: u32) -> (r: bool)
    ensures
        r == spec_declared(subtasks@, id),
{
    let mut k: usize = 0;
    while k < subtasks.len()
        invariant
            k <= subtasks@.len(),
            forall|t: int| 0 <= t < k ==> subtasks@[t].id != id,
        decreases subtasks@.len() - k,
    {
        if subtasks[k].id == id {
            return true;
        }
        k = k + 1;
    }
    false
}

/// Drops every item whose subtask is not declared, keeping the rest in
/// order.
pub fn resolve_items(
    items: &Vec<ExpandedDataItem>,
    subtasks: &Vec<SubtaskPolicy>,
) -> (r: Vec<ExpandedDataItem>)
    ensures
        r@ == spec_resolved(items@, subtasks@),
{
    let mut r: Vec<ExpandedDataItem> = Vec::new();
    let mut i: usize = 0;
    while i < items.len()
        invariant
            i <= items@.len(),
            r@ == spec_resolved(items@.take(i as int), subtasks@),
        decreases items@.len() - i,
    {
        proof {
            assert(items@.take(i + 1).drop_last() =~= items@.take(i as int));
            assert(items@.take(i + 1).last() == items@[i as int]);
        }
        if subtask_declared(subtasks, items[i].subtask) {
            r.push(items[i]);
        }
        i = i + 1;
    }
    proof {
        assert(items@.take(items@.len() as int) =~= items@);
    }
    r
}

/// Sums the full scores of the items.
pub fn total_max_score(items: &Vec<ExpandedDataItem>) -> (r: u32)
    requires
        spec_total_max(items@) <= u32::MAX,
    ensures
        r == spec_total_max(items@),
{
    proof {
        lemma_total_max_prefixes(items@, items@.len() as int);
        assert(items@.take(items@.len() as int) =~= items@);
    }
    let mut r: u32 = 0;
    let mut i: usize = 0;
    while i < items.len()
        invariant
            i <= items@.len(),
            r == spec_total_max(items@.take(i as int)),
            spec_total_max(items@) <= u32::MAX,
            forall|k: int|
                0 <= k <= items@.len() ==> spec_total_max(#[trigger] items@.take(k))
                    <= spec_total_max(items@),
            forall|k: int| 0 <= k <= items@.len() ==> spec_total_max(#[trigger] items@.take(k)) >= 0,
        decreases items@.len() - i,
    {
        proof {
            assert(items@.take(i + 1).drop_last() =~= items@.take(i as int));
            assert(items@.take(i + 1).last() == items@[i as int]);
        }
        r = r + items[i].score;
        i = i + 1;
    }
    proof {
        assert(items@.take(items@.len() as int) =~= items@);
    }
    r
}

/// Sum of the awarded scores of all items, whatever their subtask.
pub open spec fn spec_awards_total(
    items: Seq<ExpandedDataItem>,
    statuses: Seq<TestCaseStatus>,
) -> int
    decreases items.len(),
    when items.len() == statuses.len()
{
    if items.len() == 0 {
        0
    } else {
        spec_awards_total(items.drop_last(), statuses.drop_last()) + (spec_awarded_score(
            statuses.last(),
            items.last().score,
        ) as u32)
    }
}

/// Sum, over the declared subtasks, of the plain sums of their items'
/// awards; an upper bound for the policy-aggregated total.
pub open spec fn spec_listed_sum(
    items: Seq<ExpandedDataItem>,
    statuses: Seq<TestCaseStatus>,
    subtasks: Seq<SubtaskPolicy>,
) -> int
    decreases subtasks.len(),
{
    if subtasks.len() == 0 {
        0
    } else {
        spec_listed_sum(items, statuses, subtasks.drop_last()) + spec_sum(
            spec_awards_for(items, statuses, subtasks.last().id),
        )
    }
}

/// Any policy's subtask score lies between zero and the plain sum of the
/// awards.
proof fn lemma_subtask_score_bounds(policy: ScorePolicy, awards: Seq<u32>)
    ensures
        0 <= spec_subtask_score(policy, awards) <= spec_sum(awards),
{
    match policy {
        ScorePolicy::Sum => {
            lemma_sum_nonneg(awards);
        },
        ScorePolicy::Max => {
            lemma_max_le_sum(awards);
        },
        ScorePolicy::Min => {
            lemma_min_le_sum(awards);
        },
    }
}

proof fn lemma_max_le_sum(awards: Seq<u32>)
    ensures
        0 <= crate::score::spec_max(awards) <= spec_sum(awards),
    decreases awards.len(),
{
    if awards.len() > 0 {
        lemma_max_le_sum(awards.drop_last());
        lemma_sum_nonneg(awards.drop_last());
    }
}

proof fn lemma_min_le_sum(awards: Seq<u32>)
    ensures
        0 <= crate::score::spec_min(awards) <= spec_sum(awards),
    decreases awards.len(),
{
    if awards.len() > 0 {
        lemma_min_le_sum(awards.drop_last());
        lemma_sum_nonneg(awards.drop_last());
    }
}

/// The policy-aggregated total never exceeds the listed per-subtask sums.
proof fn lemma_total_le_listed(
    items: Seq<ExpandedDataItem>,
    statuses: Seq<TestCaseStatus>,
    subtasks: Seq<SubtaskPolicy>,
)
    requires
        items.len() == statuses.len(),
    ensures
        0 <= spec_total_score(items, statuses, subtasks) <= spec_listed_sum(
            items,
            statuses,
            subtasks,
        ),
    decreases subtasks.len(),
{
    if subtasks.len() > 0 {
        lemma_total_le_listed(items, statuses, subtasks.drop_last());
        lemma_subtask_score_bounds(
            subtasks.last().policy,
            spec_awards_for(items, statuses, subtasks.last().id),
        );
    }
}

proof fn lemma_listed_empty(subtasks: Seq<SubtaskPolicy>)
    ensures
        spec_listed_sum(Seq::empty(), Seq::empty(), subtasks) == 0,
    decreases subtasks.len(),
{
    if subtasks.len() > 0 {
        lemma_listed_empty(subtasks.drop_last());
    }
}

/// Adding one item adds its award to exactly the one declared subtask it
/// belongs to (or to none): subtask ids are unique.
proof fn lemma_listed_extend(
    items: Seq<ExpandedDataItem>,
    statuses: Seq<TestCaseStatus>,
    subtasks: Seq<SubtaskPolicy>,
)
    requires
        items.len() == statuses.len(),
        items.len() > 0,
        spec_unique_ids(subtasks),
    ensures
        spec_listed_sum(items, statuses, subtasks) == spec_listed_sum(
            items.drop_last(),
            statuses.drop_last(),
            subtasks,
        ) + if spec_declared(subtasks, items.last().subtask) {
            (spec_awarded_score(statuses.last(), items.last().score) as u32) as int
        } else {
            0
        },
    decreases subtasks.len(),
{
    if subtasks.len() > 0 {
        let d = subtasks.drop_last();
        assert(spec_unique_ids(d)) by {
            assert(forall|a: int, b: int|
                0 <= a < b < d.len() ==> d[a] == subtasks[a] && d[b] == subtasks[b]);
        }
        lemma_listed_extend(items, statuses, d);
        let x = items.last();
        let a = spec_awarded_score(statuses.last(), x.score) as u32;
        let prev = spec_awards_for(items.drop_last(), statuses.drop_last(), subtasks.last().id);
        if x.subtask == subtasks.last().id {
            assert(spec_awards_for(items, statuses, subtasks.last().id) == prev.push(a));
            assert(prev.push(a).drop_last() =~= prev);
            assert(spec_sum(prev.push(a)) == spec_sum(prev) + a);
            assert(!spec_declared(d, x.subtask)) by {
                if spec_declared(d, x.subtask) {
                    let k = choose|k: int| 0 <= k < d.len() && d[k].id == x.subtask;
                    assert(subtasks[k].id == subtasks[subtasks.len() - 1].id);
                }
            }
            assert(spec_declared(subtasks, x.subtask)) by {
                assert(subtasks[subtasks.len() - 1].id == x.subtask);
            }
        } else {
            assert(spec_awards_for(items, statuses, subtasks.last().id) == prev);
            assert(spec_declared(subtasks, x.subtask) == spec_declared(d, x.subtask)) by {
                if spec_declared(subtasks, x.subtask) {
                    let k = choose|k: int|
                        0 <= k < subtasks.len() && subtasks[k].id == x.subtask;
                    assert(k < d.len() && d[k] == subtasks[k]);
                }
                if spec_declared(d, x.subtask) {
                    let k = choose|k: int| 0 <= k < d.len() && d[k].id == x.subtask;
                    assert(subtasks[k] == d[k]);
                }
            }
        }
    }
}

/// The listed per-subtask sums never exceed the sum of all awards.
proof fn lemma_listed_le_awards_total(
    items: Seq<ExpandedDataItem>,
    statuses: Seq<TestCaseStatus>,
    subtasks: Seq<SubtaskPolicy>,
)
    requires
        items.len() == statuses.len(),
        spec_unique_ids(subtasks),
    ensures
        0 <= spec_listed_sum(items, statuses, subtasks) <= spec_awards_total(items, statuses),
    decreases items.len(),
{
    if items.len() == 0 {
        assert(items =~= Seq::<ExpandedDataItem>::empty());
        assert(statuses =~= Seq::<TestCaseStatus>::empty());
        lemma_listed_empty(subtasks);
    } else {
        lemma_listed_extend(items, statuses, subtasks);
        lemma_listed_le_awards_total(items.drop_last(), statuses.drop_last(), subtasks);
    }
}

/// With well-formed statuses, the sum of all awards is at most the sum
/// of all full scores.
proof fn lemma_awards_total_le_total_max(
    items: Seq<ExpandedDataItem>,
    statuses: Seq<TestCaseStatus>,
)
    requires
        items.len() == statuses.len(),
        spec_statuses_wf(statuses),
    ensures
        0 <= spec_awards_total(items, statuses) <= spec_total_max(items),
    decreases items.len(),
{
    if items.len() > 0 {
        assert(spec_statuses_wf(statuses.drop_last())) by {
            assert(forall|k: int|
                0 <= k < statuses.len() - 1 ==> statuses.drop_last()[k] == statuses[k]);
        }
        lemma_awards_total_le_total_max(items.drop_last(), statuses.drop_last());
        assert(statuses[statuses.len() - 1].wf());
        lemma_awarded_score_bounded(statuses.last(), items.last().score);
    }
}

/// Dropping items can only lower the sum of full scores.
proof fn lemma_resolved_total_max(items: Seq<ExpandedDataItem>, subtasks: Seq<SubtaskPolicy>)
    ensures
        0 <= spec_total_max(spec_resolved(items, subtasks)) <= spec_total_max(items),
    decreases items.len(),
{
    if items.len() > 0 {
        lemma_resolved_total_max(items.drop_last(), subtasks);
        let rest = spec_resolved(items.drop_last(), subtasks);
        if spec_declared(subtasks, items.last().subtask) {
            assert(rest.push(items.last()).drop_last() =~= rest);
        }
    }
}

/// One subtask's award sum is at most the sum of all awards.
proof fn lemma_awards_for_le_awards_total(
    items: Seq<ExpandedDataItem>,
    statuses: Seq<TestCaseStatus>,
    id: u32,
)
    requires
        items.len() == statuses.len(),
    ensures
        0 <= spec_sum(spec_awards_for(items, statuses, id)) <= spec_awards_total(items, statuses),
    decreases items.len(),
{
    if items.len() > 0 {
        lemma_awards_for_le_awards_total(items.drop_last(), statuses.drop_last(), id);
        let prev = spec_awards_for(items.drop_last(), statuses.drop_last(), id);
        if items.last().subtask == id {
            let a = spec_awarded_score(statuses.last(), items.last().score) as u32;
            assert(prev.push(a).drop_last() =~= prev);
            assert(spec_sum(prev.push(a)) == spec_sum(prev) + a);
        }
    }
}

/// The policy-aggregated total lies between zero and the sum of all the
/// resolved items' full scores.
pub proof fn lemma_total_score_bounded(
    items: Seq<ExpandedDataItem>,
    statuses: Seq<TestCaseStatus>,
    subtasks: Seq<SubtaskPolicy>,
)
    requires
        items.len() == statuses.len(),
        spec_statuses_wf(statuses),
        spec_unique_ids(subtasks),
    ensures
        0 <= spec_total_score(items, statuses, subtasks) <= spec_total_max(items),
{
    lemma_total_le_listed(items, statuses, subtasks);
    lemma_listed_le_awards_total(items, statuses, subtasks);
    lemma_awards_total_le_total_max(items, statuses);
}

/// Prefix sums of full scores are non-negative and bounded by the whole
/// sum.
proof fn lemma_total_max_prefixes(items: Seq<ExpandedDataItem>, n: int)
    requires
        0 <= n <= items.len(),
    ensures
        forall|k: int|
            0 <= k <= n ==> spec_total_max(#[trigger] items.take(k)) <= spec_total_max(
                items.take(n),
            ),
        forall|k: int| 0 <= k <= n ==> spec_total_max(#[trigger] items.take(k)) >= 0,
    decreases n,
{
    if n > 0 {
        lemma_total_max_prefixes(items, n - 1);
        assert(items.take(n).drop_last() =~= items.take(n - 1));
        assert forall|k: int| 0 <= k <= n implies spec_total_max(#[trigger] items.take(k))
            <= spec_total_max(items.take(n)) by {
            if k < n {
                assert(spec_total_max(items.take(k)) <= spec_total_max(items.take(n - 1)));
            }
        }
    } else {
        assert(items.take(0) =~= Seq::<ExpandedDataItem>::empty());
    }
}

/// Items in ascending id order.
pub open spec fn spec_sorted_by_id(items: Seq<ExpandedDataItem>) -> bool {
    forall|a: int, b: int|
        0 <= a < b < items.len() ==> (#[trigger] items[a]).id <= (#[trigger] items[b]).id
}

/// Sorts the data items by ascending id, so that cases run and are
/// reported deterministically.  The result holds exactly the given
/// items.
pub fn sort_items_by_id(items: Vec<ExpandedDataItem>) -> (r: Vec<ExpandedDataItem>)
    ensures
        spec_sorted_by_id(r@),
        r@.to_multiset() == items@.to_multiset(),
        r@.len() == items@.len(),
{
    broadcast use vstd::seq_lib::group_to_multiset_ensures;

    let ghost all = items@;
    let mut rest = items;
    let mut out: Vec<ExpandedDataItem> = Vec::new();
    proof {
        assert(out@.to_multiset().add(rest@.to_multiset()) =~= all.to_multiset());
    }
    while rest.len() > 0
        invariant
            out@.to_multiset().add(rest@.to_multiset()) == all.to_multiset(),
            out@.len() + rest@.len() == all.len(),
            spec_sorted_by_id(out@),
            forall|a: int, b: int|
                0 <= a < out@.len() && 0 <= b < rest@.len() ==> (#[trigger] out@[a]).id <= (
                #[trigger] rest@[b]).id,
        decreases rest@.len(),
    {
        let mut m: usize = 0;
        let mut k: usize = 1;
        while k < rest.len()
            invariant
                m < k <= rest@.len() || (k <= rest@.len() && m < rest@.len()),
                m < rest@.len(),
                forall|t: int| 0 <= t < k ==> rest@[m as int].id <= (#[trigger] rest@[t]).id,
            decreases rest@.len() - k,
        {
            if rest[k].id < rest[m].id {
                m = k;
            }
            k = k + 1;
        }
        let ghost before = rest@;
        let x = rest.remove(m);
        let ghost prev_out = out@;
        out.push(x);
        proof {
            broadcast use vstd::seq_lib::group_to_multiset_ensures;

            assert(before.remove(m as int).to_multiset() =~= before.to_multiset().remove(x));
            assert(out@ == prev_out.push(x));
            assert(prev_out.push(x).to_multiset() =~= prev_out.to_multiset().insert(x));
            assert(out@.to_multiset().add(rest@.to_multiset()) =~= all.to_multiset());
            assert forall|a: int, b: int|
                0 <= a < out@.len() && 0 <= b < rest@.len() implies (#[trigger] out@[a]).id <= (
            #[trigger] rest@[b]).id by {
                if b < m {
                    assert(rest@[b] == before[b]);
                } else {
                    assert(rest@[b] == before[b + 1]);
                }
                if a < out@.len() - 1 {
                    assert(out@[a] == prev_out[a]);
                }
            }
        }
    }
    proof {
        broadcast use vstd::seq_lib::group_to_multiset_ensures;

        assert(rest@.to_multiset() =~= Multiset::<ExpandedDataItem>::empty());
        assert(out@.to_multiset() =~= all.to_multiset());
        assert(all.to_multiset().len() == all.len());
    }
    out
}

/// Judges one tester from the terminal statuses of its cases.
///
/// `items` and `subtasks` come from the problem configuration; items
/// whose subtask is undeclared are dropped.  `statuses` holds one
/// terminal status per surviving item, in item order — the application
/// obtains them by running the cases of `resolve_items` one by one.  The
/// result records, per case, its status, awarded score and full score;
/// the subtask scores aggregated under each declared subtask's policy;
/// and their sum as the total.
pub fn judge_tester(
    tester_name: &str,
    items: &Vec<ExpandedDataItem>,
    subtasks: &Vec<SubtaskPolicy>,
    statuses: &Vec<TestCaseStatus>,
) -> (r: ProblemTestResult)
    requires
        spec_unique_ids(subtasks@),
        statuses@.len() == spec_resolved(items@, subtasks@).len(),
        spec_statuses_wf(statuses@),
        spec_total_max(items@) <= u32::MAX,
    ensures
        ({
            let resolved = spec_resolved(items@, subtasks@);
            &&& r.tester_name@ == tester_name@
            &&& r.test_case_results@.len() == resolved.len()
            &&& forall|k: int|
                0 <= k < resolved.len() ==> {
                    let res = #[trigger] r.test_case_results@[k];
                    &&& res.test_case_id == resolved[k].id
                    &&& res.status == statuses@[k]
                    &&& res.max_score == resolved[k].score
                    &&& res.score == spec_awarded_score(statuses@[k], resolved[k].score)
                }
            &&& r.total_score == spec_total_score(resolved, statuses@, subtasks@)
            &&& r.max_possible_score == spec_total_max(items@)
        }),
{
    let resolved = resolve_items(items, subtasks);
    let max_possible_score = total_max_score(items);

    let mut results: Vec<IndividualTestCaseResult> = Vec::new();
    let mut k: usize = 0;
    while k < resolved.len()
        invariant
            resolved@ == spec_resolved(items@, subtasks@),
            statuses@.len() == resolved@.len(),
            spec_statuses_wf(statuses@),
            k <= resolved@.len(),
            results@.len() == k,
            forall|t: int|
                0 <= t < k ==> {
                    let res = #[trigger] results@[t];
                    &&& res.test_case_id == resolved@[t].id
                    &&& res.status == statuses@[t]
                    &&& res.max_score == resolved@[t].score
                    &&& res.score == spec_awarded_score(statuses@[t], resolved@[t].score)
                },
        decreases resolved@.len() - k,
    {
        let status = statuses[k];
        proof {
            assert(statuses@[k as int].wf());
        }
        let earned = awarded_score(status, resolved[k].score);
        results.push(
            IndividualTestCaseResult {
                test_case_id: resolved[k].id,
                status,
                score: earned,
                max_score: resolved[k].score,
            },
        );
        k = k + 1;
    }

    let mut total: u32 = 0;
    let mut t: usize = 0;
    proof {
        lemma_resolved_total_max(items@, subtasks@);
        assert(subtasks@.take(0) =~= Seq::<SubtaskPolicy>::empty());
    }
    while t < subtasks.len()
        invariant
            resolved@ == spec_resolved(items@, subtasks@),
            statuses@.len() == resolved@.len(),
            spec_statuses_wf(statuses@),
            spec_unique_ids(subtasks@),
            spec_total_max(items@) <= u32::MAX,
            spec_total_max(resolved@) <= spec_total_max(items@),
            t <= subtasks@.len(),
            total == spec_total_score(resolved@, statuses@, subtasks@.take(t as int)),
        decreases subtasks@.len() - t,
    {
        let id = subtasks[t].id;
        let mut awards: Vec<u32> = Vec::new();
        let mut i: usize = 0;
        while i < resolved.len()
            invariant
                statuses@.len() == resolved@.len(),
                spec_statuses_wf(statuses@),
                i <= resolved@.len(),
                awards@ == spec_awards_for(resolved@.take(i as int), statuses@.take(i as int), id),
            decreases resolved@.len() - i,
        {
            proof {
                assert(resolved@.take(i + 1).drop_last() =~= resolved@.take(i as int));
                assert(statuses@.take(i + 1).drop_last() =~= statuses@.take(i as int));
                assert(resolved@.take(i + 1).last() == resolved@[i as int]);
                assert(statuses@.take(i + 1).last() == statuses@[i as int]);
                assert(statuses@[i as int].wf());
            }
            if resolved[i].subtask == id {
                let a = awarded_score(statuses[i], resolved[i].score);
                awards.push(a);
            }
            i = i + 1;
        }
        proof {
            assert(resolved@.take(resolved@.len() as int) =~= resolved@);
            assert(statuses@.take(statuses@.len() as int) =~= statuses@);
            lemma_awards_for_le_awards_total(resolved@, statuses@, id);
            lemma_awards_total_le_total_max(resolved@, statuses@);
            assert(spec_unique_ids(subtasks@.take(t + 1))) by {
                assert(forall|a: int, b: int|
                    0 <= a < b < t + 1 ==> subtasks@.take(t + 1)[a] == subtasks@[a]
                        && subtasks@.take(t + 1)[b] == subtasks@[b]);
            }
            lemma_total_score_bounded(resolved@, statuses@, subtasks@.take(t + 1));
            assert(subtasks@.take(t + 1).drop_last() =~= subtasks@.take(t as int));
            assert(subtasks@.take(t + 1).last() == subtasks@[t as int]);
        }
        let st_score = subtask_score(subtasks[t].policy, &awards);
        total = total + st_score;
        t = t + 1;
    }
    proof {
        assert(subtasks@.take(subtasks@.len() as int) =~= subtasks@);
    }

    ProblemTestResult {
        tester_name: tester_name.to_owned(),
        test_case_results: results,
        total_score: total,
        max_possible_score,
    }
}

/// The degenerate result of a tester whose source failed to compile:
/// exactly one recorded case with status `CE`, no points, and the whole
/// problem's score as its full score.  No cases are executed.
pub fn compile_failure_result(tester_name: &str, items: &Vec<ExpandedDataItem>) -> (r:
    ProblemTestResult)
    requires
        spec_total_max(items@) <= u32::MAX,
    ensures
        r.tester_name@ == tester_name@,
        r.test_case_results@.len() == 1,
        r.test_case_results@[0].test_case_id == 0,
        r.test_case_results@[0].status == TestCaseStatus::CE,
        r.test_case_results@[0].score == 0,
        r.test_case_results@[0].max_score == spec_total_max(items@),
        r.total_score == 0,
        r.max_possible_score == spec_total_max(items@),
{
    let max = total_max_score(items);
    let mut results: Vec<IndividualTestCaseResult> = Vec::new();
    results.push(
        IndividualTestCaseResult {
            test_case_id: 0,
            status: TestCaseStatus::CE,
            score: 0,
            max_score: max,
        },
    );
    ProblemTestResult {
        tester_name: tester_name.to_owned(),
        test_case_results: results,
        total_score: 0,
        max_possible_score: max,
    }
}

} // verus!
