//! Outcome vocabulary for one (tester, test case) pair, and the tester's
//! own lifecycle states.

use vstd::prelude::*;

verus! {

/// Lifecycle of one tester while it is being judged.
#[derive(Debug, PartialEq, Eq, Structural, Copy, Clone)]
pub enum ProblemStatus {
    Waiting,
    Compiling,
    CE,
    Compiled,
    Running,
}

/// Upper bound of the normalized partial-credit range.  Partial scores
/// are held in thousandths of a point, so that a checker-reported value
/// such as `42.857` becomes `42857`; the whole `0..=100` range is
/// `0..=100_000`.
pub const MAX_PARTIAL: u32 = 100_000;

/// Terminal (or transient) status of one test case run.
///
/// `Running` doubles as "ran to completion within limits": the case runner
/// leaves it in place when neither the watchdog nor the exit status
/// reported a failure, and the caller then proceeds to output validation.
/// `PC` carries a normalized partial score in thousandths of a point
/// (`0..=100_000`).
#[derive(Debug, PartialEq, Eq, Structural, Copy, Clone)]
pub enum TestCaseStatus {
    Running,
    RE,
    TLE,
    MLE,
    WA,
    AC,
    UKE,
    CE,
    PC(u32),
}

impl TestCaseStatus {
    /// A stored partial score is always inside the normalized range.
    pub open spec fn wf(self) -> bool {
        self matches TestCaseStatus::PC(p) ==> p <= MAX_PARTIAL
    }

    /// The label under which the status appears in the report.
    pub open spec fn spec_label(self) -> Seq<char> {
        match self {
            TestCaseStatus::Running => "Running"@,
            TestCaseStatus::RE => "RE"@,
            TestCaseStatus::TLE => "TLE"@,
            TestCaseStatus::MLE => "MLE"@,
            TestCaseStatus::WA => "WA"@,
            TestCaseStatus::AC => "AC"@,
            TestCaseStatus::UKE => "UKE"@,
            TestCaseStatus::CE => "CE"@,
            TestCaseStatus::PC(_) => "PC"@,
        }
    }

    /// Report label of the status; the partial score itself is written in
    /// its own column, so `PC` carries no number here.
    pub fn label(&self) -> (r: &'static str)
        ensures
            r@ == self.spec_label(),
    {
        match self {
            TestCaseStatus::Running => "Running",
            TestCaseStatus::RE => "RE",
            TestCaseStatus::TLE => "TLE",
            TestCaseStatus::MLE => "MLE",
            TestCaseStatus::WA => "WA",
            TestCaseStatus::AC => "AC",
            TestCaseStatus::UKE => "UKE",
            TestCaseStatus::CE => "CE",
            TestCaseStatus::PC(_) => "PC",
        }
    }
}

/// Verdict read from a checker's result file.  `Score` carries the
/// normalized partial score in thousandths of a point.
#[derive(Debug, PartialEq, Eq, Structural, Copy, Clone)]
pub enum JudgeResult {
    Accepted,
    WrongAnswer,
    PresentationError,
    Fail,
    Score(u32),
}

/// How a checker verdict becomes a test-case status: `accepted` is `AC`;
/// wrong answers and presentation errors are both `WA`; a checker that
/// could not adjudicate (`fail`) degrades to `UKE`; partial credit is
/// carried over unchanged.
pub open spec fn spec_status_of_verdict(v: JudgeResult) -> TestCaseStatus {
    match v {
        JudgeResult::Accepted => TestCaseStatus::AC,
        JudgeResult::WrongAnswer => TestCaseStatus::WA,
        JudgeResult::PresentationError => TestCaseStatus::WA,
        JudgeResult::Fail => TestCaseStatus::UKE,
        JudgeResult::Score(p) => TestCaseStatus::PC(p),
    }
}

/// Maps a checker verdict to the status recorded for the case.
pub fn status_of_verdict(v: JudgeResult) -> (r: TestCaseStatus)
    ensures
        r == spec_status_of_verdict(v),
{
    match v {
        JudgeResult::Accepted => TestCaseStatus::AC,
        JudgeResult::WrongAnswer => TestCaseStatus::WA,
        JudgeResult::PresentationError => TestCaseStatus::WA,
        JudgeResult::Fail => TestCaseStatus::UKE,
        JudgeResult::Score(p) => TestCaseStatus::PC(p),
    }
}

} // verus!
