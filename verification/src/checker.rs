//! Checker-protocol parser.
//!
//! An external checker writes its verdict into a result file as a single
//! XML-like element, e.g.
//! `<result outcome="partially-correct" pctype="42.0">case 3</result>`.
//! This module parses that text into a [`JudgeResult`] plus the checker's
//! free-text message, and maps it onto a [`TestCaseStatus`].  A file that
//! cannot be parsed degrades to `UKE`: one tester's checker anomaly must
//! never abort the judging of the others.

use vstd::prelude::*;

use crate::score::spec_normalize_score;
use crate::status::{spec_status_of_verdict, JudgeResult, TestCaseStatus};
use crate::strutil::{
    all_digits_in, chars_to_string, digits_val_capped, is_ws, spec_all_digits, spec_digit_val,
    spec_digits_or_empty, spec_digits_val, spec_is_digit, spec_is_ws, subrange_vec, to_char_vec,
    SCORE_CAP,
};

verus! {

/// Why a result file could not be interpreted.
#[derive(Debug, PartialEq, Eq, Structural, Copy, Clone)]
pub enum CheckerError {
    /// The text is not a well-formed result element.
    Malformed,
    /// The element parsed, but its `outcome` attribute holds an unknown word.
    UnknownOutcome,
    /// The score attribute of a partial-credit outcome is not a decimal number.
    BadScore,
}

/// What a result file means, at the specification level.
pub enum ParsedResult {
    Parsed { verdict: JudgeResult, message: Seq<char> },
    Malformed,
    UnknownOutcome,
    BadScore,
}

/// First position at or after `i` whose character is not whitespace.
pub open spec fn spec_skip_ws(s: Seq<char>, i: int) -> int
    decreases s.len() - i,
    when 0 <= i <= s.len()
{
    if i < s.len() && spec_is_ws(s[i]) {
        spec_skip_ws(s, i + 1)
    } else {
        i
    }
}

pub proof fn lemma_skip_ws_bounds(s: Seq<char>, i: int)
    requires
        0 <= i <= s.len(),
    ensures
        i <= spec_skip_ws(s, i) <= s.len(),
    decreases s.len() - i,
{
    if i < s.len() && spec_is_ws(s[i]) {
        lemma_skip_ws_bounds(s, i + 1);
    }
}

/// Position of the first occurrence of `c` at or after `i`.
pub open spec fn spec_find_char(s: Seq<char>, i: int, c: char) -> Option<int>
    decreases s.len() - i,
    when 0 <= i <= s.len()
{
    if i >= s.len() {
        None
    } else if s[i] == c {
        Some(i)
    } else {
        spec_find_char(s, i + 1, c)
    }
}

pub proof fn lemma_find_char_bounds(s: Seq<char>, i: int, c: char)
    requires
        0 <= i <= s.len(),
    ensures
        spec_find_char(s, i, c) matches Some(j) ==> i <= j < s.len() && s[j] == c,
    decreases s.len() - i,
{
    if i < s.len() && s[i] != c {
        lemma_find_char_bounds(s, i + 1, c);
    }
}

/// Position just after the first `?>` at or after `i` (the end of an XML
/// prolog), if there is one.
pub open spec fn spec_prolog_end(s: Seq<char>, i: int) -> Option<int>
    decreases s.len() - i,
    when 0 <= i <= s.len()
{
    if i + 1 >= s.len() {
        None
    } else if s[i] == '?' && s[i + 1] == '>' {
        Some(i + 2)
    } else {
        spec_prolog_end(s, i + 1)
    }
}

/// True for the characters that end an element or attribute name.
pub open spec fn spec_is_name_end(c: char) -> bool {
    spec_is_ws(c) || c == '>' || c == '/' || c == '='
}

/// First position at or after `i` that ends a name.
pub open spec fn spec_name_end(s: Seq<char>, i: int) -> int
    decreases s.len() - i,
    when 0 <= i <= s.len()
{
    if i < s.len() && !spec_is_name_end(s[i]) {
        spec_name_end(s, i + 1)
    } else {
        i
    }
}

pub proof fn lemma_name_end_bounds(s: Seq<char>, i: int)
    requires
        0 <= i <= s.len(),
    ensures
        i <= spec_name_end(s, i) <= s.len(),
    decreases s.len() - i,
{
    if i < s.len() && !spec_is_name_end(s[i]) {
        lemma_name_end_bounds(s, i + 1);
    }
}

fn skip_ws_at(s: &[char], i: usize) -> (r: usize)
    requires
        i <= s@.len(),
    ensures
        r == spec_skip_ws(s@, i as int),
        i <= r <= s@.len(),
{
    let mut j = i;
    while j < s.len() && is_ws(s[j])
        invariant
            i <= j <= s@.len(),
            spec_skip_ws(s@, i as int) == spec_skip_ws(s@, j as int),
        decreases s@.len() - j,
    {
        j = j + 1;
    }
    j
}

pub fn find_char_in(s: &[char], i: usize, c: char) -> (r: Option<usize>)
    requires
        i <= s@.len(),
    ensures
        match r {
            Some(j) => spec_find_char(s@, i as int, c) == Some(j as int) && i <= j < s@.len()
                && s@[j as int] == c && j < usize::MAX,
            None => spec_find_char(s@, i as int, c) is None,
        },
{
    let mut j = i;
    while j < s.len() && s[j] != c
        invariant
            i <= j <= s@.len(),
            spec_find_char(s@, i as int, c) == spec_find_char(s@, j as int, c),
        decreases s@.len() - j,
    {
        j = j + 1;
    }
    if j < s.len() {
        Some(j)
    } else {
        None
    }
}

fn prolog_end_at(s: &[char], i: usize) -> (r: Option<usize>)
    requires
        i <= s@.len(),
    ensures
        match r {
            Some(j) => spec_prolog_end(s@, i as int) == Some(j as int) && j <= s@.len(),
            None => spec_prolog_end(s@, i as int) is None,
        },
{
    let mut j = i;
    while j < s.len() && j + 1 < s.len() && !(s[j] == '?' && s[j + 1] == '>')
        invariant
            i <= j <= s@.len(),
            spec_prolog_end(s@, i as int) == spec_prolog_end(s@, j as int),
        decreases s@.len() - j,
    {
        j = j + 1;
    }
    if j < s.len() && j + 1 < s.len() {
        Some(j + 2)
    } else {
        None
    }
}

fn name_end_at(s: &[char], i: usize) -> (r: usize)
    requires
        i <= s@.len(),
    ensures
        r == spec_name_end(s@, i as int),
        i <= r <= s@.len(),
{
    let mut j = i;
    while j < s.len() && !(is_ws(s[j]) || s[j] == '>' || s[j] == '/' || s[j] == '=')
        invariant
            i <= j <= s@.len(),
            spec_name_end(s@, i as int) == spec_name_end(s@, j as int),
        decreases s@.len() - j,
    {
        j = j + 1;
    }
    j
}

/// View of an optional character vector.
pub open spec fn opt_view(o: Option<Vec<char>>) -> Option<Seq<char>> {
    match o {
        Option::None => None,
        Option::Some(v) => Some(v@),
    }
}

/// Result of scanning the attribute list of the element.
pub enum AttrScan {
    Done {
        next: int,
        outcome: Option<Seq<char>>,
        pctype: Option<Seq<char>>,
        points: Option<Seq<char>>,
        self_closing: bool,
    },
    Fail,
}

/// Keeps the first value seen for an attribute key.
pub open spec fn spec_keep(
    cur: Option<Seq<char>>,
    name: Seq<char>,
    key: Seq<char>,
    value: Seq<char>,
) -> Option<Seq<char>> {
    if cur is None && name == key {
        Some(value)
    } else {
        cur
    }
}

/// Scans `name="value"` pairs from position `i` up to the closing `>` or
/// `/>`, collecting the first `outcome`, `pctype` and `points` values.
pub open spec fn spec_scan_attrs(
    s: Seq<char>,
    i: int,
    outcome: Option<Seq<char>>,
    pctype: Option<Seq<char>>,
    points: Option<Seq<char>>,
) -> AttrScan
    decreases s.len() - i,
    when 0 <= i <= s.len()
{
    let k = spec_skip_ws(s, i);
    if k >= s.len() {
        AttrScan::Fail
    } else if s[k] == '>' {
        AttrScan::Done { next: k + 1, outcome, pctype, points, self_closing: false }
    } else if s[k] == '/' {
        if k + 1 < s.len() && s[k + 1] == '>' {
            AttrScan::Done { next: k + 2, outcome, pctype, points, self_closing: true }
        } else {
            AttrScan::Fail
        }
    } else {
        let ae = spec_name_end(s, k);
        if ae == k {
            AttrScan::Fail
        } else {
            let e = spec_skip_ws(s, ae);
            if !(e < s.len() && s[e] == '=') {
                AttrScan::Fail
            } else {
                let q = spec_skip_ws(s, e + 1);
                if !(q < s.len() && (s[q] == '"' || s[q] == '\'')) {
                    AttrScan::Fail
                } else {
                    match spec_find_char(s, q + 1, s[q]) {
                        None => AttrScan::Fail,
                        Some(v) => {
                            let name = s.subrange(k, ae);
                            let value = s.subrange(q + 1, v);
                            proof {
                                lemma_skip_ws_bounds(s, i);
                                lemma_name_end_bounds(s, k);
                                lemma_skip_ws_bounds(s, ae);
                                lemma_skip_ws_bounds(s, e + 1);
                                lemma_find_char_bounds(s, q + 1, s[q]);
                            }
                            spec_scan_attrs(
                                s,
                                v + 1,
                                spec_keep(outcome, name, "outcome"@, value),
                                spec_keep(pctype, name, "pctype"@, value),
                                spec_keep(points, name, "points"@, value),
                            )
                        },
                    }
                }
            }
        }
    }
}

/// Attribute values found by the executable scanner.
struct AttrsFound {
    next: usize,
    outcome: Option<Vec<char>>,
    pctype: Option<Vec<char>>,
    points: Option<Vec<char>>,
    self_closing: bool,
}

fn keep_attr(cur: Option<Vec<char>>, name: &[char], key: &str, value: &[char]) -> (r: Option<
    Vec<char>,
>)
    ensures
        opt_view(r) == spec_keep(opt_view(cur), name@, key@, value@),
{
    if cur.is_none() && crate::strutil::chars_eq_str(name, key) {
        let copied = subrange_vec(value, 0, value.len());
        proof {
            assert(copied@ =~= value@);
        }
        Some(copied)
    } else {
        cur
    }
}

fn scan_attrs(
    s: &[char],
    i: usize,
    outcome: Option<Vec<char>>,
    pctype: Option<Vec<char>>,
    points: Option<Vec<char>>,
) -> (r: Option<AttrsFound>)
    requires
        i <= s@.len(),
    ensures
        match r {
            Some(f) => spec_scan_attrs(
                s@,
                i as int,
                opt_view(outcome),
                opt_view(pctype),
                opt_view(points),
            ) == (AttrScan::Done {
                next: f.next as int,
                outcome: opt_view(f.outcome),
                pctype: opt_view(f.pctype),
                points: opt_view(f.points),
                self_closing: f.self_closing,
            }) && f.next <= s@.len(),
            None => spec_scan_attrs(
                s@,
                i as int,
                opt_view(outcome),
                opt_view(pctype),
                opt_view(points),
            ) == AttrScan::Fail,
        },
    decreases s@.len() - i,
{
    let k = skip_ws_at(s, i);
    if k >= s.len() {
        None
    } else if s[k] == '>' {
        Some(AttrsFound { next: k + 1, outcome, pctype, points, self_closing: false })
    } else if s[k] == '/' {
        if k + 1 < s.len() && s[k + 1] == '>' {
            Some(AttrsFound { next: k + 2, outcome, pctype, points, self_closing: true })
        } else {
            None
        }
    } else {
        let ae = name_end_at(s, k);
        if ae == k {
            None
        } else {
            let e = skip_ws_at(s, ae);
            if !(e < s.len() && s[e] == '=') {
                None
            } else {
                let q = skip_ws_at(s, e + 1);
                if !(q < s.len() && (s[q] == '"' || s[q] == '\'')) {
                    None
                } else {
                    match find_char_in(s, q + 1, s[q]) {
                        None => None,
                        Some(v) => {
                            let name = subrange_vec(s, k, ae);
                            let value = subrange_vec(s, q + 1, v);
                            let outcome = keep_attr(outcome, name.as_slice(), "outcome", value.as_slice());
                            let pctype = keep_attr(pctype, name.as_slice(), "pctype", value.as_slice());
                            let points = keep_attr(points, name.as_slice(), "points", value.as_slice());
                            scan_attrs(s, v + 1, outcome, pctype, points)
                        },
                    }
                }
            }
        }
    }
}

/// Thousandths contributed by the fractional digits of a score; only the
/// first three fractional digits carry weight.
pub open spec fn spec_frac_millis(f: Seq<char>) -> int {
    (if f.len() > 0 {
        spec_digit_val(f[0]) * 100
    } else {
        0
    }) + (if f.len() > 1 {
        spec_digit_val(f[1]) * 10
    } else {
        0
    }) + (if f.len() > 2 {
        spec_digit_val(f[2])
    } else {
        0
    })
}

/// Value of a checker score attribute, in signed thousandths of a point:
/// an optional sign, digits, and an optional fraction after one decimal
/// point.  `None` when the text is not such a number.
pub open spec fn spec_parse_score(v: Seq<char>) -> Option<int> {
    let neg = v.len() > 0 && v[0] == '-';
    let b = if v.len() > 0 && (v[0] == '-' || v[0] == '+') {
        v.subrange(1, v.len() as int)
    } else {
        v
    };
    match spec_find_char(b, 0, '.') {
        None => if spec_all_digits(b) {
            Some(
                if neg {
                    -(spec_digits_val(b) * 1000)
                } else {
                    spec_digits_val(b) * 1000
                },
            )
        } else {
            None
        },
        Some(d) => {
            let ip = b.take(d);
            let fp = b.subrange(d + 1, b.len() as int);
            if spec_digits_or_empty(ip) && spec_digits_or_empty(fp) && b.len() > 1 {
                let raw = spec_digits_val(ip) * 1000 + spec_frac_millis(fp);
                Some(
                    if neg {
                        -raw
                    } else {
                        raw
                    },
                )
            } else {
                None
            }
        },
    }
}



fn frac_millis_exec(s: &[char], from: usize, to: usize) -> (r: u64)
    requires
        from <= to <= s@.len(),
        spec_digits_or_empty(s@.subrange(from as int, to as int)),
    ensures
        r == spec_frac_millis(s@.subrange(from as int, to as int)),
        r < 1000,
{
    let ghost whole = s@.subrange(from as int, to as int);
    let len = to - from;
    let mut r: u64 = 0;
    if len > 0 {
        proof {
            assert(whole[0] == s@[from as int]);
        }
        r = r + crate::strutil::digit_val(s[from]) * 100;
    }
    if len > 1 {
        proof {
            assert(whole[1] == s@[from + 1]);
        }
        r = r + crate::strutil::digit_val(s[from + 1]) * 10;
    }
    if len > 2 {
        proof {
            assert(whole[2] == s@[from + 2]);
        }
        r = r + crate::strutil::digit_val(s[from + 2]);
    }
    r
}

/// Parses a score attribute and normalizes it into `0..=100_000`
/// thousandths.  `None` exactly when the text is not a decimal number.
fn parse_score_norm(v: &[char]) -> (r: Option<u32>)
    ensures
        match r {
            Some(p) => spec_parse_score(v@) matches Some(raw) && p == spec_normalize_score(raw)
                && p <= crate::status::MAX_PARTIAL,
            None => spec_parse_score(v@) is None,
        },
{
    let signed = v.len() > 0 && (v[0] == '-' || v[0] == '+');
    let neg = v.len() > 0 && v[0] == '-';
    let b = if signed {
        subrange_vec(v, 1, v.len())
    } else {
        subrange_vec(v, 0, v.len())
    };
    proof {
        if !signed {
            assert(b@ =~= v@);
        }
    }
    let ghost bs = b@;
    match find_char_in(b.as_slice(), 0, '.') {
        None => {
            if b.len() == 0 {
                return None;
            }
            if !all_digits_in(b.as_slice(), 0, b.len()) {
                proof {
                    assert(bs.subrange(0, bs.len() as int) =~= bs);
                }
                return None;
            }
            proof {
                assert(bs.subrange(0, bs.len() as int) =~= bs);
            }
            let ipv = digits_val_capped(b.as_slice(), 0, b.len());
            proof {
                lemma_score_clamp(spec_digits_val(bs), ipv as int, 0, neg);
            }
            Some(crate::score::normalize_score(neg, ipv * 1000))
        },
        Some(d) => {
            let ok_ip = all_digits_in(b.as_slice(), 0, d);
            let ok_fp = all_digits_in(b.as_slice(), d + 1, b.len());
            proof {
                assert(bs.subrange(0, d as int) =~= bs.take(d as int));
            }
            if !(ok_ip && ok_fp && b.len() > 1) {
                return None;
            }
            let ipv = digits_val_capped(b.as_slice(), 0, d);
            let frac = frac_millis_exec(b.as_slice(), d + 1, b.len());
            proof {
                lemma_score_clamp(
                    spec_digits_val(bs.take(d as int)),
                    ipv as int,
                    spec_frac_millis(bs.subrange(d + 1, bs.len() as int)),
                    neg,
                );
            }
            Some(crate::score::normalize_score(neg, ipv * 1000 + frac))
        },
    }
}

/// A capped integer part clamps to the same normalized score as the true
/// value.
proof fn lemma_score_clamp(true_ip: int, capped_ip: int, frac: int, neg: bool)
    requires
        true_ip >= 0,
        0 <= frac < 1000,
        true_ip <= SCORE_CAP ==> capped_ip == true_ip,
        true_ip > SCORE_CAP ==> capped_ip == SCORE_CAP,
    ensures
        spec_normalize_score(
            if neg {
                -(capped_ip * 1000 + frac)
            } else {
                capped_ip * 1000 + frac
            },
        ) == spec_normalize_score(
            if neg {
                -(true_ip * 1000 + frac)
            } else {
                true_ip * 1000 + frac
            },
        ),
{
    if true_ip > SCORE_CAP {
        assert(true_ip * 1000 >= SCORE_CAP * 1000) by (nonlinear_arith)
            requires
                true_ip > SCORE_CAP,
        ;
    }
}

/// Meaning of a score attribute inside an outcome that awards partial
/// credit: a missing attribute counts as zero points, an unparsable one
/// is an error, and any other value is clamped into range.
pub open spec fn spec_score_outcome(attr: Option<Seq<char>>, text: Seq<char>) -> ParsedResult {
    match attr {
        None => ParsedResult::Parsed { verdict: JudgeResult::Score(0), message: text },
        Some(v) => match spec_parse_score(v) {
            None => ParsedResult::BadScore,
            Some(raw) => ParsedResult::Parsed {
                verdict: JudgeResult::Score(spec_normalize_score(raw) as u32),
                message: text,
            },
        },
    }
}

/// The verdict carried by a result element's attributes and text: the
/// `outcome` attribute selects the verdict, and the score for
/// `partially-correct` / `points` comes from `pctype` / `points`.
pub open spec fn spec_interpret(
    outcome: Option<Seq<char>>,
    pctype: Option<Seq<char>>,
    points: Option<Seq<char>>,
    text: Seq<char>,
) -> ParsedResult {
    match outcome {
        None => ParsedResult::Malformed,
        Some(o) => if o == "accepted"@ {
            ParsedResult::Parsed { verdict: JudgeResult::Accepted, message: text }
        } else if o == "wrong-answer"@ {
            ParsedResult::Parsed { verdict: JudgeResult::WrongAnswer, message: text }
        } else if o == "presentation-error"@ {
            ParsedResult::Parsed { verdict: JudgeResult::PresentationError, message: text }
        } else if o == "fail"@ {
            ParsedResult::Parsed { verdict: JudgeResult::Fail, message: text }
        } else if o == "partially-correct"@ {
            spec_score_outcome(pctype, text)
        } else if o == "points"@ {
            spec_score_outcome(points, text)
        } else {
            ParsedResult::UnknownOutcome
        },
    }
}

/// Parses one element starting at position `i`: `<name attrs...>` with
/// its text up to the closing tag, or a self-closing `<name attrs.../>`.
pub open spec fn spec_parse_element(s: Seq<char>, i: int) -> ParsedResult {
    if !(0 <= i && i < s.len() && s[i] == '<') {
        ParsedResult::Malformed
    } else {
        let ne = spec_name_end(s, i + 1);
        if ne == i + 1 {
            ParsedResult::Malformed
        } else {
            match spec_scan_attrs(s, ne, None, None, None) {
                AttrScan::Fail => ParsedResult::Malformed,
                AttrScan::Done { next, outcome, pctype, points, self_closing } => {
                    if self_closing {
                        spec_interpret(outcome, pctype, points, Seq::<char>::empty())
                    } else {
                        match spec_find_char(s, next, '<') {
                            None => ParsedResult::Malformed,
                            Some(t) => if t + 1 < s.len() && s[t + 1] == '/' {
                                spec_interpret(outcome, pctype, points, s.subrange(next, t))
                            } else {
                                ParsedResult::Malformed
                            },
                        }
                    }
                },
            }
        }
    }
}

/// Meaning of a whole result file: optional leading whitespace and XML
/// prolog, followed by one result element.
pub open spec fn spec_parse_result(s: Seq<char>) -> ParsedResult {
    let i0 = spec_skip_ws(s, 0);
    if i0 + 1 < s.len() && s[i0] == '<' && s[i0 + 1] == '?' {
        match spec_prolog_end(s, i0 + 2) {
            None => ParsedResult::Malformed,
            Some(j) => spec_parse_element(s, spec_skip_ws(s, j)),
        }
    } else {
        spec_parse_element(s, i0)
    }
}

fn score_outcome(attr: Option<Vec<char>>, text: &[char]) -> (r: Result<
    (JudgeResult, String),
    CheckerError,
>)
    ensures
        match r {
            Ok(p) => spec_score_outcome(opt_view(attr), text@) matches ParsedResult::Parsed {
                verdict,
                message,
            } && p.0 == verdict && p.1@ == message && verdict_wf(p.0),
            Err(e) => e == CheckerError::BadScore && spec_score_outcome(opt_view(attr), text@)
                is BadScore,
        },
{
    match attr {
        None => Ok((JudgeResult::Score(0), chars_to_string(text))),
        Some(v) => match parse_score_norm(v.as_slice()) {
            None => Err(CheckerError::BadScore),
            Some(p) => Ok((JudgeResult::Score(p), chars_to_string(text))),
        },
    }
}

/// A verdict whose partial score, if any, is inside the normalized range.
pub open spec fn verdict_wf(v: JudgeResult) -> bool {
    v matches JudgeResult::Score(p) ==> p <= crate::status::MAX_PARTIAL
}

fn interpret(
    outcome: Option<Vec<char>>,
    pctype: Option<Vec<char>>,
    points: Option<Vec<char>>,
    text: &[char],
) -> (r: Result<(JudgeResult, String), CheckerError>)
    ensures
        parse_matches(r, spec_interpret(opt_view(outcome), opt_view(pctype), opt_view(points), text@)),
{
    match outcome {
        None => Err(CheckerError::Malformed),
        Some(o) => {
            if crate::strutil::chars_eq_str(o.as_slice(), "accepted") {
                Ok((JudgeResult::Accepted, chars_to_string(text)))
            } else if crate::strutil::chars_eq_str(o.as_slice(), "wrong-answer") {
                Ok((JudgeResult::WrongAnswer, chars_to_string(text)))
            } else if crate::strutil::chars_eq_str(o.as_slice(), "presentation-error") {
                Ok((JudgeResult::PresentationError, chars_to_string(text)))
            } else if crate::strutil::chars_eq_str(o.as_slice(), "fail") {
                Ok((JudgeResult::Fail, chars_to_string(text)))
            } else if crate::strutil::chars_eq_str(o.as_slice(), "partially-correct") {
                score_outcome(pctype, text)
            } else if crate::strutil::chars_eq_str(o.as_slice(), "points") {
                score_outcome(points, text)
            } else {
                Err(CheckerError::UnknownOutcome)
            }
        },
    }
}

/// The executable result agrees with the specification-level parse.
pub open spec fn parse_matches(
    r: Result<(JudgeResult, String), CheckerError>,
    p: ParsedResult,
) -> bool {
    match r {
        Ok(ok) => p matches ParsedResult::Parsed { verdict, message } && ok.0 == verdict && ok.1@
            == message && verdict_wf(ok.0),
        Err(CheckerError::Malformed) => p is Malformed,
        Err(CheckerError::UnknownOutcome) => p is UnknownOutcome,
        Err(CheckerError::BadScore) => p is BadScore,
    }
}

fn parse_element_at(s: &[char], i: usize) -> (r: Result<(JudgeResult, String), CheckerError>)
    requires
        i <= s@.len(),
    ensures
        parse_matches(r, spec_parse_element(s@, i as int)),
{
    if !(i < s.len() && s[i] == '<') {
        return Err(CheckerError::Malformed);
    }
    let ne = name_end_at(s, i + 1);
    if ne == i + 1 {
        return Err(CheckerError::Malformed);
    }
    match scan_attrs(s, ne, None, None, None) {
        None => Err(CheckerError::Malformed),
        Some(found) => {
            if found.self_closing {
                let empty: Vec<char> = Vec::new();
                interpret(found.outcome, found.pctype, found.points, empty.as_slice())
            } else {
                match find_char_in(s, found.next, '<') {
                    None => Err(CheckerError::Malformed),
                    Some(t) => {
                        if t + 1 < s.len() && s[t + 1] == '/' {
                            let text = subrange_vec(s, found.next, t);
                            interpret(found.outcome, found.pctype, found.points, text.as_slice())
                        } else {
                            Err(CheckerError::Malformed)
                        }
                    },
                }
            }
        },
    }
}

/// Parses the content of a checker result file into a verdict and the
/// checker's message.
pub fn parse_result(xml_str: &str) -> (r: Result<(JudgeResult, String), CheckerError>)
    ensures
        parse_matches(r, spec_parse_result(xml_str@)),
{
    let cs = to_char_vec(xml_str);
    let s = cs.as_slice();
    let i0 = skip_ws_at(s, 0);
    if i0 < s.len() && i0 + 1 < s.len() && s[i0] == '<' && s[i0 + 1] == '?' {
        match prolog_end_at(s, i0 + 2) {
            None => Err(CheckerError::Malformed),
            Some(j) => {
                let k = skip_ws_at(s, j);
                parse_element_at(s, k)
            },
        }
    } else {
        parse_element_at(s, i0)
    }
}

/// Status recorded for a case from the raw content of the checker's
/// result file: the mapped verdict when the file parses, `UKE` (with an
/// empty message) when it does not.
pub fn checker_status(res_content: &str) -> (r: (TestCaseStatus, String))
    ensures
        match spec_parse_result(res_content@) {
            ParsedResult::Parsed { verdict, message } => r.0 == spec_status_of_verdict(verdict)
                && r.1@ == message,
            _ => r.0 == TestCaseStatus::UKE && r.1@ =~= Seq::<char>::empty(),
        },
        r.0.wf(),
        r.0 != TestCaseStatus::Running && r.0 != TestCaseStatus::CE,
{
    match parse_result(res_content) {
        Ok((verdict, message)) => (crate::status::status_of_verdict(verdict), message),
        Err(_) => (TestCaseStatus::UKE, String::new()),
    }
}

} // verus!
