//! Number-formatting helpers offered to statement templates: a
//! thousands separator and a compact rendering of test-case ranges.

use vstd::prelude::*;

use crate::strutil::{
    chars_to_string, i64_str, push_char, spec_dec, spec_dec_signed, subrange_vec, to_char_vec,
};

verus! {

/// Digits grouped in threes from the right, commas in between.
pub open spec fn spec_group_digits(d: Seq<char>) -> Seq<char>
    decreases d.len(),
{
    if d.len() <= 3 {
        d
    } else {
        spec_group_digits(d.take(d.len() - 3)) + seq![','] + d.subrange(
            d.len() - 3,
            d.len() as int,
        )
    }
}

/// A number with thousands separators: the decimal spelling grouped in
/// threes, with a leading minus sign for negative numbers.
pub open spec fn spec_comma(n: int) -> Seq<char> {
    if n < 0 {
        seq!['-'] + spec_group_digits(spec_dec(-n))
    } else {
        spec_group_digits(spec_dec(n))
    }
}

fn group_digits(d: &[char]) -> (r: String)
    ensures
        r@ == spec_group_digits(d@),
    decreases d@.len(),
{
    if d.len() <= 3 {
        chars_to_string(d)
    } else {
        let head = subrange_vec(d, 0, d.len() - 3);
        proof {
            assert(head@ =~= d@.take(d@.len() - 3));
        }
        let mut r = group_digits(head.as_slice());
        push_char(&mut r, ',');
        let tail = subrange_vec(d, d.len() - 3, d.len());
        let tail_str = chars_to_string(tail.as_slice());
        r.append(tail_str.as_str());
        proof {
            assert(r@ =~= spec_group_digits(d@));
        }
        r
    }
}

/// Formats an integer with commas between thousands groups.
pub fn comma(num: i64) -> (r: String)
    requires
        num > i64::MIN,
    ensures
        r@ == spec_comma(num as int),
{
    if num < 0 {
        let digits = i64_str(-num);
        let cs = to_char_vec(digits.as_str());
        let mut r = String::new();
        push_char(&mut r, '-');
        let grouped = group_digits(cs.as_slice());
        r.append(grouped.as_str());
        proof {
            assert(r@ =~= seq!['-'] + spec_group_digits(spec_dec(-num as int)));
        }
        r
    } else {
        let digits = i64_str(num);
        let cs = to_char_vec(digits.as_str());
        group_digits(cs.as_slice())
    }
}

/// How one run of consecutive ids is written: a single id plainly, a
/// pair as two entries, a longer run as `a \sim b`.
pub open spec fn spec_render_run(a: int, b: int) -> Seq<char> {
    if a == b {
        spec_dec_signed(a)
    } else if a + 1 == b {
        spec_dec_signed(a) + seq![','] + spec_dec_signed(b)
    } else {
        spec_dec_signed(a) + " \\sim "@ + spec_dec_signed(b)
    }
}

/// The rendered runs of `v[i..]`, given the run `[start, end]` open to
/// the left of position `i`.
pub open spec fn spec_runs_from(v: Seq<i32>, i: int, start: int, end: int) -> Seq<char>
    decreases v.len() - i,
    when 0 <= i <= v.len()
{
    if i >= v.len() {
        spec_render_run(start, end)
    } else if v[i] == end + 1 {
        spec_runs_from(v, i + 1, start, v[i] as int)
    } else {
        spec_render_run(start, end) + seq![','] + spec_runs_from(v, i + 1, v[i] as int, v[i] as int)
    }
}

/// A sorted list of case ids written compactly: consecutive runs become
/// `a \sim b`, the whole list sits between dollar signs, and an empty
/// list is a single dollar sign.
pub open spec fn spec_cases(v: Seq<i32>) -> Seq<char> {
    if v.len() == 0 {
        "$"@
    } else {
        seq!['$'] + spec_runs_from(v, 1, v[0] as int, v[0] as int) + seq!['$']
    }
}

fn render_run(a: i64, b: i64) -> (r: String)
    requires
        i32::MIN <= a <= i32::MAX,
        i32::MIN <= b <= i32::MAX,
    ensures
        r@ == spec_render_run(a as int, b as int),
{
    if a == b {
        i64_str(a)
    } else if a + 1 == b {
        let mut r = i64_str(a);
        push_char(&mut r, ',');
        let bs = i64_str(b);
        r.append(bs.as_str());
        proof {
            assert(r@ =~= spec_dec_signed(a as int) + seq![','] + spec_dec_signed(b as int));
        }
        r
    } else {
        let mut r = i64_str(a);
        r.append(" \\sim ");
        let bs = i64_str(b);
        r.append(bs.as_str());
        proof {
            assert(r@ =~= spec_dec_signed(a as int) + " \\sim "@ + spec_dec_signed(b as int));
        }
        r
    }
}

/// Renders a list of case ids compactly, merging consecutive runs.
pub fn cases(cases_vec: Vec<i32>) -> (r: String)
    ensures
        r@ == spec_cases(cases_vec@),
{
    if cases_vec.len() == 0 {
        return String::from_str("$");
    }
    let v = &cases_vec;
    let mut r = String::new();
    push_char(&mut r, '$');
    let mut start: i64 = v[0] as i64;
    let mut end: i64 = v[0] as i64;
    let mut i: usize = 1;
    while i < v.len()
        invariant
            1 <= i <= v@.len(),
            v@.len() > 0,
            i32::MIN <= start <= i32::MAX,
            i32::MIN <= end <= i32::MAX,
            seq!['$'] + spec_runs_from(v@, 1, v@[0] as int, v@[0] as int) == r@ + spec_runs_from(
                v@,
                i as int,
                start as int,
                end as int,
            ),
        decreases v@.len() - i,
    {
        let c = v[i] as i64;
        if c == end + 1 {
            end = c;
        } else {
            let run = render_run(start, end);
            r.append(run.as_str());
            push_char(&mut r, ',');
            start = c;
            end = c;
        }
        i = i + 1;
    }
    let run = render_run(start, end);
    r.append(run.as_str());
    push_char(&mut r, '$');
    proof {
        assert(r@ =~= seq!['$'] + spec_runs_from(v@, 1, v@[0] as int, v@[0] as int) + seq!['$']);
    }
    r
}

} // verus!
