//! Report rendering: one row per judged case and one `TOTAL` row per
//! tester, in a comma-separated table with a header.  The application
//! writes the rendered text to `result.csv` in the problem directory;
//! rendering the same results always yields byte-for-byte the same text,
//! so re-running the judge overwrites the report deterministically.

use vstd::prelude::*;

use crate::judge::{IndividualTestCaseResult, ProblemTestResult};
use crate::strutil::{chars_to_string, push_char, spec_dec, to_char_vec, u32_str};

verus! {

/// Whether a field must be quoted: it holds a comma, a double quote or a
/// line break.
pub open spec fn spec_needs_quote(s: Seq<char>) -> bool {
    exists|k: int|
        0 <= k < s.len() && ((#[trigger] s[k]) == ',' || s[k] == '"' || s[k] == '\n' || s[k]
            == '\r')
}

/// A field's characters with every double quote doubled.
pub open spec fn spec_escape_quotes(s: Seq<char>) -> Seq<char>
    decreases s.len(),
{
    if s.len() == 0 {
        Seq::empty()
    } else {
        spec_escape_quotes(s.drop_last()) + (if s.last() == '"' {
            seq!['"', '"']
        } else {
            seq![s.last()]
        })
    }
}

/// A field as written: quoted (with doubled inner quotes) when it needs
/// quoting, verbatim otherwise.
pub open spec fn spec_csv_field(s: Seq<char>) -> Seq<char> {
    if spec_needs_quote(s) {
        seq!['"'] + spec_escape_quotes(s) + seq!['"']
    } else {
        s
    }
}

/// The row written for one judged case.
pub open spec fn spec_case_row(tester: Seq<char>, res: IndividualTestCaseResult) -> Seq<char> {
    spec_csv_field(tester) + ","@ + spec_dec(res.test_case_id as int) + ","@
        + res.status.spec_label() + ","@ + spec_dec(res.score as int) + ","@ + spec_dec(
        res.max_score as int,
    ) + "\n"@
}

/// The rows of all of one tester's cases, in recorded order.
pub open spec fn spec_case_rows(tester: Seq<char>, results: Seq<IndividualTestCaseResult>) -> Seq<
    char,
>
    decreases results.len(),
{
    if results.len() == 0 {
        Seq::empty()
    } else {
        spec_case_rows(tester, results.drop_last()) + spec_case_row(tester, results.last())
    }
}

/// The closing row of one tester: an empty case-id column, the marker
/// `TOTAL`, the total score and the maximum possible score.
pub open spec fn spec_total_row(tester: Seq<char>, total: u32, max: u32) -> Seq<char> {
    spec_csv_field(tester) + ",,TOTAL,"@ + spec_dec(total as int) + ","@ + spec_dec(max as int)
        + "\n"@
}

/// Everything written for one tester.
pub open spec fn spec_tester_block(r: ProblemTestResult) -> Seq<char> {
    spec_case_rows(r.tester_name@, r.test_case_results@) + spec_total_row(
        r.tester_name@,
        r.total_score,
        r.max_possible_score,
    )
}

/// The whole report: a header row, and every tester's block in order.
pub open spec fn spec_report(results: Seq<ProblemTestResult>) -> Seq<char>
    decreases results.len(),
{
    if results.len() == 0 {
        "测试者,测试点ID,状态,得分,最高分\n"@
    } else {
        spec_report(results.drop_last()) + spec_tester_block(results.last())
    }
}

fn csv_field(s: &str) -> (r: String)
    ensures
        r@ == spec_csv_field(s@),
{
    let cs = to_char_vec(s);
    let mut quote = false;
    let mut i: usize = 0;
    while i < cs.len()
        invariant
            i <= cs@.len(),
            cs@ == s@,
            quote == exists|k: int|
                0 <= k < i && ((#[trigger] cs@[k]) == ',' || cs@[k] == '"' || cs@[k] == '\n'
                    || cs@[k] == '\r'),
        decreases cs@.len() - i,
    {
        let c = cs[i];
        if c == ',' || c == '"' || c == '\n' || c == '\r' {
            quote = true;
        }
        i = i + 1;
    }
    if !quote {
        return chars_to_string(cs.as_slice());
    }
    let mut r = String::new();
    push_char(&mut r, '"');
    let mut i: usize = 0;
    while i < cs.len()
        invariant
            i <= cs@.len(),
            cs@ == s@,
            r@ == seq!['"'] + spec_escape_quotes(cs@.take(i as int)),
        decreases cs@.len() - i,
    {
        proof {
            assert(cs@.take(i + 1).drop_last() =~= cs@.take(i as int));
            assert(cs@.take(i + 1).last() == cs@[i as int]);
        }
        let c = cs[i];
        if c == '"' {
            push_char(&mut r, '"');
            push_char(&mut r, '"');
        } else {
            push_char(&mut r, c);
        }
        proof {
            assert(r@ =~= seq!['"'] + spec_escape_quotes(cs@.take(i + 1)));
        }
        i = i + 1;
    }
    push_char(&mut r, '"');
    proof {
        assert(cs@.take(cs@.len() as int) =~= cs@);
        assert(r@ =~= seq!['"'] + spec_escape_quotes(cs@) + seq!['"']);
    }
    r
}

fn render_case_row(tester: &str, res: &IndividualTestCaseResult) -> (r: String)
    ensures
        r@ == spec_case_row(tester@, *res),
{
    let mut r = csv_field(tester);
    r.append(",");
    let id = u32_str(res.test_case_id);
    r.append(id.as_str());
    r.append(",");
    r.append(res.status.label());
    r.append(",");
    let score = u32_str(res.score);
    r.append(score.as_str());
    r.append(",");
    let max = u32_str(res.max_score);
    r.append(max.as_str());
    r.append("\n");
    proof {
        assert(r@ =~= spec_case_row(tester@, *res));
    }
    r
}

/// Renders the full report for a judging run.  The text is a pure
/// function of the recorded results, so equal results give
/// byte-for-byte equal reports.
pub fn render_report(results: &Vec<ProblemTestResult>) -> (r: String)
    ensures
        r@ == spec_report(results@),
{
    let mut r = String::from_str("测试者,测试点ID,状态,得分,最高分\n");
    let mut i: usize = 0;
    while i < results.len()
        invariant
            i <= results@.len(),
            r@ == spec_report(results@.take(i as int)),
        decreases results@.len() - i,
    {
        proof {
            assert(results@.take(i + 1).drop_last() =~= results@.take(i as int));
            assert(results@.take(i + 1).last() == results@[i as int]);
        }
        let block = render_tester_block(&results[i]);
        r.append(block.as_str());
        i = i + 1;
    }
    proof {
        assert(results@.take(results@.len() as int) =~= results@);
    }
    r
}

fn render_tester_block(result: &ProblemTestResult) -> (r: String)
    ensures
        r@ == spec_tester_block(*result),
{
    let mut r = String::new();
    let mut k: usize = 0;
    while k < result.test_case_results.len()
        invariant
            k <= result.test_case_results@.len(),
            r@ == spec_case_rows(result.tester_name@, result.test_case_results@.take(k as int)),
        decreases result.test_case_results@.len() - k,
    {
        proof {
            assert(result.test_case_results@.take(k + 1).drop_last()
                =~= result.test_case_results@.take(k as int));
            assert(result.test_case_results@.take(k + 1).last()
                == result.test_case_results@[k as int]);
        }
        let row = render_case_row(result.tester_name.as_str(), &result.test_case_results[k]);
        r.append(row.as_str());
        k = k + 1;
    }
    proof {
        assert(result.test_case_results@.take(result.test_case_results@.len() as int)
            =~= result.test_case_results@);
    }
    let total_field = csv_field(result.tester_name.as_str());
    r.append(total_field.as_str());
    r.append(",,TOTAL,");
    let total = u32_str(result.total_score);
    r.append(total.as_str());
    r.append(",");
    let max = u32_str(result.max_possible_score);
    r.append(max.as_str());
    r.append("\n");
    proof {
        assert(r@ =~= spec_tester_block(*result));
    }
    r
}

/// Two recorded result sets that hold the same values — the same tester
/// names, case results and scores — render to the same report text:
/// running the judge twice over an unchanged problem and tester set
/// writes byte-for-byte identical report content.
pub proof fn lemma_report_deterministic(a: Seq<ProblemTestResult>, b: Seq<ProblemTestResult>)
    requires
        a.len() == b.len(),
        forall|k: int|
            0 <= k < a.len() ==> {
                &&& (#[trigger] a[k]).tester_name@ == b[k].tester_name@
                &&& a[k].test_case_results@ == b[k].test_case_results@
                &&& a[k].total_score == b[k].total_score
                &&& a[k].max_possible_score == b[k].max_possible_score
            },
    ensures
        spec_report(a) == spec_report(b),
    decreases a.len(),
{
    if a.len() > 0 {
        assert(forall|k: int|
            0 <= k < a.len() - 1 ==> a.drop_last()[k] == a[k] && b.drop_last()[k] == b[k]);
        lemma_report_deterministic(a.drop_last(), b.drop_last());
        assert(spec_tester_block(a.last()) == spec_tester_block(b.last()));
    }
}

} // verus!
