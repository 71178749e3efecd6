//! Configuration model types the judge and the statement tooling read.
//! Loading and saving these from JSON files is the application's work;
//! here live the types themselves and the defaulting rules that run
//! after loading.

use vstd::prelude::*;

use crate::strutil::{spec_dec, u32_str};

verus! {

/// A problem as listed in a rendered day's data table.
#[derive(Debug, Clone)]
pub struct Problem {
    pub name: String,
    pub title: String,
    pub problem_type: String,
    pub dir: String,
    pub executable: String,
    pub input: String,
    pub output: String,
    pub time_limit: String,
    pub memory_limit: String,
    pub testcase: String,
    pub point_equal: String,
    pub submit_filename: Vec<String>,
}

/// A language contestants may submit in, with its compile options.
#[derive(Debug, Clone)]
pub struct SupportLanguage {
    pub name: String,
    pub compile_options: String,
}

/// Start and end of a contest day, as `[year, month, day, hour, minute,
/// second]`.
#[derive(Debug, PartialEq, Eq, Copy, Clone)]
pub struct DateInfo {
    pub start: [u32; 6],
    pub end: [u32; 6],
}

/// Flags a statement template declares about itself.
#[derive(Debug, PartialEq, Eq, Structural, Copy, Clone)]
pub struct TemplateManifest {
    pub use_pretest: bool,
    pub noi_style: bool,
    pub file_io: bool,
}

/// Default for a template that does not declare `use_pretest`.
pub fn default_use_pretest() -> (r: bool)
    ensures
        r == false,
{
    false
}

/// Default for a template that does not declare `noi_style`.
pub fn default_noi_style() -> (r: bool)
    ensures
        r == true,
{
    true
}

/// Default for a template that does not declare `file_io`.
pub fn default_file_io() -> (r: bool)
    ensures
        r == true,
{
    true
}

/// Compile arguments of a contest day, one string per language.
#[derive(Debug, Clone)]
pub struct CompileConfig {
    pub cpp: String,
    pub c: String,
}

/// The default input file name of item `id`: `<id>.in`.
pub open spec fn spec_default_input(id: u32) -> Seq<char> {
    spec_dec(id as int) + ".in"@
}

/// The default answer file name of item `id`: `<id>.ans`.
pub open spec fn spec_default_output(id: u32) -> Seq<char> {
    spec_dec(id as int) + ".ans"@
}

/// True when a configured file name is missing or empty, so the default
/// applies.
pub open spec fn spec_file_unset(o: Option<String>) -> bool {
    match o {
        None => true,
        Some(s) => s@.len() == 0,
    }
}

/// One sample shown in the statement, with optional explicit file names.
#[derive(Debug, Clone)]
pub struct SampleItem {
    pub id: u32,
    pub input: Option<String>,
    pub output: Option<String>,
}

impl SampleItem {
    /// Fills in the default file names `<id>.in` / `<id>.ans` where none
    /// (or an empty name) was configured.
    pub fn finalize(self) -> (r: SampleItem)
        ensures
            r.id == self.id,
            spec_file_unset(self.input) ==> (r.input matches Some(s) && s@ == spec_default_input(
                self.id,
            )),
            !spec_file_unset(self.input) ==> r.input == self.input,
            spec_file_unset(self.output) ==> (r.output matches Some(s) && s@
                == spec_default_output(self.id)),
            !spec_file_unset(self.output) ==> r.output == self.output,
    {
        let SampleItem { id, input, output } = self;
        let input = fill_name(input, id, ".in");
        let output = fill_name(output, id, ".ans");
        SampleItem { id, input, output }
    }
}

/// One scored test-data item of a problem, with optional explicit file
/// names.
#[derive(Debug, Clone)]
pub struct DataItem {
    pub id: u32,
    pub score: u32,
    pub input: Option<String>,
    pub output: Option<String>,
}

impl DataItem {
    /// Fills in the default file names `<id>.in` / `<id>.ans` where none
    /// (or an empty name) was configured.
    pub fn finalize(self) -> (r: DataItem)
        ensures
            r.id == self.id,
            r.score == self.score,
            spec_file_unset(self.input) ==> (r.input matches Some(s) && s@ == spec_default_input(
                self.id,
            )),
            !spec_file_unset(self.input) ==> r.input == self.input,
            spec_file_unset(self.output) ==> (r.output matches Some(s) && s@
                == spec_default_output(self.id)),
            !spec_file_unset(self.output) ==> r.output == self.output,
    {
        let DataItem { id, score, input, output } = self;
        let input = fill_name(input, id, ".in");
        let output = fill_name(output, id, ".ans");
        DataItem { id, score, input, output }
    }
}

fn fill_name(cur: Option<String>, id: u32, suffix: &str) -> (r: Option<String>)
    ensures
        spec_file_unset(cur) ==> (r matches Some(s) && s@ == spec_dec(id as int) + suffix@),
        !spec_file_unset(cur) ==> r == cur,
{
    let unset = match &cur {
        None => true,
        Some(s) => s.as_str().is_empty(),
    };
    if unset {
        let mut name = u32_str(id);
        name.append(suffix);
        Some(name)
    } else {
        cur
    }
}

} // verus!
