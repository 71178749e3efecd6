//! Testers' expectations: each tester declares one or more conditions on
//! the total score it should achieve (for instance `"== 100"`), and the
//! tester passes only when every condition holds.

use vstd::prelude::*;

use crate::checker::spec_skip_ws;
use crate::strutil::{is_ws, parse_u32_range, spec_all_digits, spec_digits_val};

verus! {

/// A comparison operator of a score condition.
#[derive(Debug, PartialEq, Eq, Structural, Copy, Clone)]
pub enum CompOp {
    Eq,
    Ne,
    Le,
    Ge,
    Lt,
    Gt,
}

/// One registered tester: the path of its source file and the
/// condition(s) its total score must satisfy.
#[derive(Debug, Clone)]
pub enum ExpectedScore {
    Single(String),
    Multiple(Vec<String>),
}

/// A candidate solution registered against a problem.
#[derive(Debug, Clone)]
pub struct TestCase {
    pub path: String,
    pub expected: ExpectedScore,
}

/// The comparison operator spelled at position `i`, with the position
/// after it.  Two-character operators win over their one-character
/// prefixes.
pub open spec fn spec_op_at(s: Seq<char>, i: int) -> Option<(CompOp, int)> {
    if i + 1 < s.len() && s[i] == '=' && s[i + 1] == '=' {
        Some((CompOp::Eq, i + 2))
    } else if i + 1 < s.len() && s[i] == '!' && s[i + 1] == '=' {
        Some((CompOp::Ne, i + 2))
    } else if i + 1 < s.len() && s[i] == '<' && s[i + 1] == '=' {
        Some((CompOp::Le, i + 2))
    } else if i + 1 < s.len() && s[i] == '>' && s[i + 1] == '=' {
        Some((CompOp::Ge, i + 2))
    } else if i < s.len() && s[i] == '<' {
        Some((CompOp::Lt, i + 1))
    } else if i < s.len() && s[i] == '>' {
        Some((CompOp::Gt, i + 1))
    } else {
        None
    }
}

/// One comparison applied to a score and a bound.
pub open spec fn spec_compare(op: CompOp, score: int, bound: int) -> bool {
    match op {
        CompOp::Eq => score == bound,
        CompOp::Ne => score != bound,
        CompOp::Le => score <= bound,
        CompOp::Ge => score >= bound,
        CompOp::Lt => score < bound,
        CompOp::Gt => score > bound,
    }
}

/// Meaning of a condition string: optional whitespace, a comparison
/// operator, optional whitespace, a decimal bound that fits in `u32`,
/// optional trailing whitespace.  A condition of any other shape holds
/// for no score.
pub open spec fn spec_condition_parts(s: Seq<char>) -> Option<(CompOp, int)> {
    let i = spec_skip_ws(s, 0);
    if 0 <= i <= s.len() {
        match spec_op_at(s, i) {
            None => None,
            Some((op, after)) => {
                let j = spec_skip_ws(s, after);
                let digits_end = spec_digits_end(s, j);
                let d = s.subrange(j, digits_end);
                if spec_all_digits(d) && spec_digits_val(d) <= u32::MAX && spec_skip_ws(
                    s,
                    digits_end,
                ) == s.len() {
                    Some((op, spec_digits_val(d)))
                } else {
                    None
                }
            },
        }
    } else {
        None
    }
}

/// First position at or after `i` whose character is not a decimal digit.
pub open spec fn spec_digits_end(s: Seq<char>, i: int) -> int
    decreases s.len() - i,
    when 0 <= i <= s.len()
{
    if i < s.len() && crate::strutil::spec_is_digit(s[i]) {
        spec_digits_end(s, i + 1)
    } else {
        i
    }
}

/// Whether a condition string holds for a given total score.
pub open spec fn spec_eval_condition(s: Seq<char>, score: int) -> bool {
    match spec_condition_parts(s) {
        None => false,
        Some((op, bound)) => spec_compare(op, score, bound),
    }
}

pub fn skip_ws_from(s: &[char], i: usize) -> (r: usize)
    requires
        i <= s@.len(),
    ensures
        r == spec_skip_ws(s@, i as int),
        i <= r <= s@.len(),
{
    let mut j = i;
    while j < s.len() && is_ws(s[j])
        invariant
            i <= j <= s@.len(),
            spec_skip_ws(s@, i as int) == spec_skip_ws(s@, j as int),
        decreases s@.len() - j,
    {
        j = j + 1;
    }
    j
}

fn digits_end_at(s: &[char], i: usize) -> (r: usize)
    requires
        i <= s@.len(),
    ensures
        r == spec_digits_end(s@, i as int),
        i <= r <= s@.len(),
{
    let mut j = i;
    while j < s.len() && crate::strutil::is_digit(s[j])
        invariant
            i <= j <= s@.len(),
            spec_digits_end(s@, i as int) == spec_digits_end(s@, j as int),
        decreases s@.len() - j,
    {
        j = j + 1;
    }
    j
}

fn op_at(s: &[char], i: usize) -> (r: Option<(CompOp, usize)>)
    requires
        i <= s@.len(),
    ensures
        match r {
            Some(p) => spec_op_at(s@, i as int) == Some((p.0, p.1 as int)) && i <= p.1 <= s@.len(),
            None => spec_op_at(s@, i as int) is None,
        },
{
    if i < s.len() && i + 1 < s.len() && s[i] == '=' && s[i + 1] == '=' {
        Some((CompOp::Eq, i + 2))
    } else if i < s.len() && i + 1 < s.len() && s[i] == '!' && s[i + 1] == '=' {
        Some((CompOp::Ne, i + 2))
    } else if i < s.len() && i + 1 < s.len() && s[i] == '<' && s[i + 1] == '=' {
        Some((CompOp::Le, i + 2))
    } else if i < s.len() && i + 1 < s.len() && s[i] == '>' && s[i + 1] == '=' {
        Some((CompOp::Ge, i + 2))
    } else if i < s.len() && s[i] == '<' {
        Some((CompOp::Lt, i + 1))
    } else if i < s.len() && s[i] == '>' {
        Some((CompOp::Gt, i + 1))
    } else {
        None
    }
}

/// Evaluates one condition string against a total score.
pub fn eval_condition(cond: &str, score: u32) -> (r: bool)
    ensures
        r == spec_eval_condition(cond@, score as int),
{
    let cs = crate::strutil::to_char_vec(cond);
    let s = cs.as_slice();
    let i = skip_ws_from(s, 0);
    match op_at(s, i) {
        None => false,
        Some((op, after)) => {
            let j = skip_ws_from(s, after);
            let digits_end = digits_end_at(s, j);
            match parse_u32_range(s, j, digits_end) {
                None => false,
                Some(bound) => {
                    if skip_ws_from(s, digits_end) != s.len() {
                        return false;
                    }
                    match op {
                        CompOp::Eq => score == bound,
                        CompOp::Ne => score != bound,
                        CompOp::Le => score <= bound,
                        CompOp::Ge => score >= bound,
                        CompOp::Lt => score < bound,
                        CompOp::Gt => score > bound,
                    }
                },
            }
        },
    }
}

/// Whether a tester's expectation holds for a total score: a single
/// condition must hold, or every condition of a list must (an empty list
/// holds trivially).
pub open spec fn spec_passes(expected: ExpectedScore, score: int) -> bool {
    match expected {
        ExpectedScore::Single(c) => spec_eval_condition(c@, score),
        ExpectedScore::Multiple(cs) => forall|k: int|
            0 <= k < cs@.len() ==> spec_eval_condition(#[trigger] cs@[k]@, score),
    }
}

/// Decides whether a tester passes: its achieved total score must
/// satisfy every declared condition.
pub fn check_test_case(test_case: &TestCase, actual_score: u32) -> (r: bool)
    ensures
        r == spec_passes(test_case.expected, actual_score as int),
{
    match &test_case.expected {
        ExpectedScore::Single(c) => eval_condition(c.as_str(), actual_score),
        ExpectedScore::Multiple(cs) => {
            let mut k: usize = 0;
            while k < cs.len()
                invariant
                    k <= cs@.len(),
                    test_case.expected is Multiple,
                    test_case.expected->Multiple_0 == *cs,
                    forall|t: int|
                        0 <= t < k ==> spec_eval_condition(#[trigger] cs@[t]@, actual_score as int),
                decreases cs@.len() - k,
            {
                if !eval_condition(cs[k].as_str(), actual_score) {
                    proof {
                        assert(!spec_eval_condition(cs@[k as int]@, actual_score as int));
                    }
                    return false;
                }
                k = k + 1;
            }
            true
        },
    }
}

} // verus!
