//! Data-generation command surface: which target is generated, which
//! action runs, and the parsing of test-case selections such as
//! `1,2-3,4-10` or `all`.

use vstd::prelude::*;

use crate::checker::{
    find_char_in, lemma_find_char_bounds, lemma_skip_ws_bounds, spec_find_char, spec_skip_ws,
};
use crate::strutil::{
    is_ws, parse_u32_range, spec_all_digits, spec_digits_val, spec_is_ws, subrange_vec,
    to_char_vec,
};

verus! {

/// What the generator produces: real test data or statement samples.
#[derive(Debug, PartialEq, Eq, Structural, Copy, Clone)]
pub enum Target {
    Data,
    Sample,
}

impl Target {
    /// The directory name of the target.
    pub fn as_str(&self) -> (r: &'static str)
        ensures
            self is Data ==> r@ == "data"@,
            self is Sample ==> r@ == "sample"@,
    {
        match self {
            Target::Data => "data",
            Target::Sample => "sample",
        }
    }
}

/// What to do with the selected cases.
#[derive(Debug, PartialEq, Eq, Structural, Copy, Clone)]
pub enum DmkCommand {
    /// Generate data that is not generated yet.
    Gen,
    /// Regenerate data with the recorded seeds.
    Regen,
    /// Reset the seeds and regenerate.
    Reset,
}

/// Arguments of the data-generation command.
#[derive(Debug, Clone)]
pub struct DmkArgs {
    pub target: Target,
    pub action: DmkCommand,
    pub object: String,
}

/// One past the last non-whitespace character.
pub open spec fn spec_ws_end(s: Seq<char>) -> int
    decreases s.len(),
{
    if s.len() == 0 {
        0
    } else if spec_is_ws(s.last()) {
        spec_ws_end(s.drop_last())
    } else {
        s.len() as int
    }
}

pub proof fn lemma_ws_end_bounds(s: Seq<char>)
    ensures
        0 <= spec_ws_end(s) <= s.len(),
    decreases s.len(),
{
    if s.len() > 0 && spec_is_ws(s.last()) {
        lemma_ws_end_bounds(s.drop_last());
    }
}

/// The sequence with surrounding whitespace removed.
pub open spec fn spec_trim(s: Seq<char>) -> Seq<char> {
    let t = s.take(spec_ws_end(s));
    t.subrange(spec_skip_ws(t, 0), t.len() as int)
}

fn ws_end_of(s: &[char]) -> (r: usize)
    ensures
        r == spec_ws_end(s@),
        r <= s@.len(),
{
    let mut j = s.len();
    proof {
        assert(s@.take(s@.len() as int) =~= s@);
    }
    while j > 0
        invariant
            j <= s@.len(),
            spec_ws_end(s@) == spec_ws_end(s@.take(j as int)),
        decreases j,
    {
        proof {
            assert(s@.take(j as int).last() == s@[j - 1]);
            assert(s@.take(j as int).drop_last() =~= s@.take(j - 1));
            lemma_ws_end_bounds(s@.take(j as int));
        }
        if !is_ws(s[j - 1]) {
            return j;
        }
        j = j - 1;
    }
    proof {
        assert(s@.take(0) =~= Seq::<char>::empty());
    }
    0
}

fn trim_chars(s: &[char]) -> (r: Vec<char>)
    ensures
        r@ == spec_trim(s@),
{
    let e = ws_end_of(s);
    let t = subrange_vec(s, 0, e);
    proof {
        assert(t@ =~= s@.take(e as int));
        lemma_skip_ws_bounds(t@, 0);
    }
    let b = crate::expected::skip_ws_from(t.as_slice(), 0);
    subrange_vec(t.as_slice(), b, t.len())
}

/// Whether the trimmed selection spells `all`, in any letter case.
pub open spec fn spec_is_all_word(t: Seq<char>) -> bool {
    t.len() == 3 && (t[0] == 'a' || t[0] == 'A') && (t[1] == 'l' || t[1] == 'L') && (t[2] == 'l'
        || t[2] == 'L')
}

/// Meaning of one comma-separated, trimmed part: `Some(None)` for an
/// empty part (skipped), `Some(Some((a, b)))` for the id `a` (`a == b`)
/// or the range `a-b`, and `None` for anything malformed — a non-number,
/// an id out of range, or a range whose start exceeds its end.
pub open spec fn spec_part_range(p: Seq<char>) -> Option<Option<(u32, u32)>> {
    if p.len() == 0 {
        Some(None)
    } else {
        match spec_find_char(p, 0, '-') {
            None => if spec_all_digits(p) && spec_digits_val(p) <= u32::MAX {
                Some(Some((spec_digits_val(p) as u32, spec_digits_val(p) as u32)))
            } else {
                None
            },
            Some(d) => {
                let a = p.take(d);
                let b = p.subrange(d + 1, p.len() as int);
                if spec_all_digits(a) && spec_digits_val(a) <= u32::MAX && spec_all_digits(b)
                    && spec_digits_val(b) <= u32::MAX {
                    if spec_digits_val(a) <= spec_digits_val(b) {
                        Some(Some((spec_digits_val(a) as u32, spec_digits_val(b) as u32)))
                    } else {
                        None
                    }
                } else {
                    None
                }
            },
        }
    }
}

/// The ranges named by the comma-separated parts of `s[i..]`, appended
/// to `acc`; `None` when any part is malformed.
pub open spec fn spec_parse_parts(s: Seq<char>, i: int, acc: Seq<(u32, u32)>) -> Option<
    Seq<(u32, u32)>,
>
    decreases s.len() - i,
    when 0 <= i <= s.len()
{
    match spec_find_char(s, i, ',') {
        None => {
            let part = spec_trim(s.subrange(i, s.len() as int));
            match spec_part_range(part) {
                None => None,
                Some(None) => Some(acc),
                Some(Some(r)) => Some(acc.push(r)),
            }
        },
        Some(k) => {
            let part = spec_trim(s.subrange(i, k));
            proof {
                lemma_find_char_bounds(s, i, ',');
            }
            match spec_part_range(part) {
                None => None,
                Some(None) => spec_parse_parts(s, k + 1, acc),
                Some(Some(r)) => spec_parse_parts(s, k + 1, acc.push(r)),
            }
        },
    }
}

/// Which cases a selection names: every case, or those inside one of a
/// list of id ranges.
pub enum CaseSelector {
    All,
    Ranges(Seq<(u32, u32)>),
}

/// Meaning of a whole selection string.
pub open spec fn spec_parse_object(s: Seq<char>) -> Option<CaseSelector> {
    let t = spec_trim(s);
    if spec_is_all_word(t) {
        Some(CaseSelector::All)
    } else {
        match spec_parse_parts(t, 0, Seq::empty()) {
            None => None,
            Some(rs) => Some(CaseSelector::Ranges(rs)),
        }
    }
}

/// Whether an id falls inside one of the ranges.
pub open spec fn spec_covered(ranges: Seq<(u32, u32)>, id: u32) -> bool {
    exists|k: int| 0 <= k < ranges.len() && (#[trigger] ranges[k]).0 <= id <= ranges[k].1
}

/// Whether a selection names an id.
pub open spec fn spec_selected(sel: CaseSelector, id: u32) -> bool {
    match sel {
        CaseSelector::All => true,
        CaseSelector::Ranges(rs) => spec_covered(rs, id),
    }
}

/// The ids of a problem's cases that a selection names, in their
/// original order.
pub open spec fn spec_selected_ids(ids: Seq<u32>, sel: CaseSelector) -> Seq<u32>
    decreases ids.len(),
{
    if ids.len() == 0 {
        Seq::empty()
    } else {
        let rest = spec_selected_ids(ids.drop_last(), sel);
        if spec_selected(sel, ids.last()) {
            rest.push(ids.last())
        } else {
            rest
        }
    }
}

/// A selection string that cannot be understood.
#[derive(Debug, PartialEq, Eq, Structural, Copy, Clone)]
pub enum SelectorError {
    Invalid,
}

fn part_range(p: &[char]) -> (r: Option<Option<(u32, u32)>>)
    ensures
        r == spec_part_range(p@),
{
    if p.len() == 0 {
        return Some(None);
    }
    match find_char_in(p, 0, '-') {
        None => match parse_u32_range(p, 0, p.len()) {
            None => {
                proof {
                    assert(p@.subrange(0, p@.len() as int) =~= p@);
                }
                None
            },
            Some(v) => {
                proof {
                    assert(p@.subrange(0, p@.len() as int) =~= p@);
                }
                Some(Some((v, v)))
            },
        },
        Some(d) => {
            proof {
                assert(p@.subrange(0, d as int) =~= p@.take(d as int));
            }
            let a = parse_u32_range(p, 0, d);
            let b = parse_u32_range(p, d + 1, p.len());
            match (a, b) {
                (Some(av), Some(bv)) => {
                    if av <= bv {
                        Some(Some((av, bv)))
                    } else {
                        None
                    }
                },
                _ => None,
            }
        },
    }
}

fn parse_parts_at(s: &[char], i: usize, acc: Vec<(u32, u32)>) -> (r: Option<Vec<(u32, u32)>>)
    requires
        i <= s@.len(),
    ensures
        match r {
            Some(v) => spec_parse_parts(s@, i as int, acc@) == Some(v@),
            None => spec_parse_parts(s@, i as int, acc@) is None,
        },
    decreases s@.len() - i,
{
    match find_char_in(s, i, ',') {
        None => {
            let seg = subrange_vec(s, i, s.len());
            let part = trim_chars(seg.as_slice());
            match part_range(part.as_slice()) {
                None => None,
                Some(None) => Some(acc),
                Some(Some(range)) => {
                    let mut acc = acc;
                    acc.push(range);
                    Some(acc)
                },
            }
        },
        Some(k) => {
            let seg = subrange_vec(s, i, k);
            let part = trim_chars(seg.as_slice());
            match part_range(part.as_slice()) {
                None => None,
                Some(None) => parse_parts_at(s, k + 1, acc),
                Some(Some(range)) => {
                    let mut acc = acc;
                    acc.push(range);
                    parse_parts_at(s, k + 1, acc)
                },
            }
        },
    }
}

fn covered(ranges: &Vec<(u32, u32)>, id: u32) -> (r: bool)
    ensures
        r == spec_covered(ranges@, id),
{
    let mut k: usize = 0;
    while k < ranges.len()
        invariant
            k <= ranges@.len(),
            forall|t: int| 0 <= t < k ==> !((#[trigger] ranges@[t]).0 <= id <= ranges@[t].1),
        decreases ranges@.len() - k,
    {
        if ranges[k].0 <= id && id <= ranges[k].1 {
            return true;
        }
        k = k + 1;
    }
    false
}

/// Parses a case selection (`all`, or parts such as `1,2-3,4-10`) and
/// returns the ids among `all_ids` that it names, in their original
/// order.  Ids named by the selection but absent from `all_ids` are
/// ignored; a malformed selection is an error.
pub fn parse_test_object(s: &str, all_ids: &[u32]) -> (r: Result<Vec<u32>, SelectorError>)
    ensures
        match r {
            Ok(v) => spec_parse_object(s@) matches Some(sel) && v@ == spec_selected_ids(
                all_ids@,
                sel,
            ),
            Err(_) => spec_parse_object(s@) is None,
        },
{
    let cs = to_char_vec(s);
    let t = trim_chars(cs.as_slice());
    let is_all = t.len() == 3 && (t[0] == 'a' || t[0] == 'A') && (t[1] == 'l' || t[1] == 'L') && (
    t[2] == 'l' || t[2] == 'L');
    if is_all {
        let mut out: Vec<u32> = Vec::new();
        let mut i: usize = 0;
        while i < all_ids.len()
            invariant
                i <= all_ids@.len(),
                out@ == spec_selected_ids(all_ids@.take(i as int), CaseSelector::All),
            decreases all_ids@.len() - i,
        {
            proof {
                assert(all_ids@.take(i + 1).drop_last() =~= all_ids@.take(i as int));
                assert(all_ids@.take(i + 1).last() == all_ids@[i as int]);
            }
            out.push(all_ids[i]);
            i = i + 1;
        }
        proof {
            assert(all_ids@.take(all_ids@.len() as int) =~= all_ids@);
        }
        return Ok(out);
    }
    match parse_parts_at(t.as_slice(), 0, Vec::new()) {
        None => Err(SelectorError::Invalid),
        Some(ranges) => {
            let ghost sel = CaseSelector::Ranges(ranges@);
            let mut out: Vec<u32> = Vec::new();
            let mut i: usize = 0;
            while i < all_ids.len()
                invariant
                    i <= all_ids@.len(),
                    sel == CaseSelector::Ranges(ranges@),
                    out@ == spec_selected_ids(all_ids@.take(i as int), sel),
                decreases all_ids@.len() - i,
            {
                proof {
                    assert(all_ids@.take(i + 1).drop_last() =~= all_ids@.take(i as int));
                    assert(all_ids@.take(i + 1).last() == all_ids@[i as int]);
                }
                if covered(&ranges, all_ids[i]) {
                    out.push(all_ids[i]);
                }
                i = i + 1;
            }
            proof {
                assert(all_ids@.take(all_ids@.len() as int) =~= all_ids@);
            }
            Ok(out)
        },
    }
}

} // verus!
