//! Decision logic of the case runner's supervisor thread.
//!
//! The application runs one candidate program per case and supervises it
//! from a watchdog thread that polls elapsed wall time and resident
//! memory.  Every decision the watchdog takes, and the merge of its
//! verdict with the child's exit status, is computed here; the
//! application only performs the resulting actions (sleep, sample, kill,
//! wait).

use vstd::prelude::*;

use crate::status::TestCaseStatus;

verus! {

/// Verdict a watchdog can record for a running case.  It is recorded at
/// most once per case: the watchdog stops as soon as it kills the child
/// or sees it gone.
#[derive(Debug, PartialEq, Eq, Structural, Copy, Clone)]
pub enum LimitVerdict {
    /// Wall time exceeded the limit.
    Tle,
    /// Resident memory exceeded the limit.
    Mle,
}

/// What the watchdog must do after one polling sample.
#[derive(Debug, PartialEq, Eq, Structural, Copy, Clone)]
pub enum WatchdogAction {
    /// Kill the child and record the verdict; stop polling.
    Kill(LimitVerdict),
    /// The child is gone: stop polling without recording anything.
    Stop,
    /// Keep polling.
    Poll,
}

/// The watchdog's decision for one sample: a time-limit violation is
/// checked first and always wins; otherwise a memory reading above the
/// limit kills the child; otherwise a vanished process stops the
/// watchdog; otherwise it keeps polling.  `memory` is `None` when the
/// process can no longer be sampled (it has exited).
pub open spec fn spec_watchdog_step(
    elapsed_ms: u128,
    time_limit_ms: u128,
    memory: Option<u64>,
    memory_limit: u64,
) -> WatchdogAction {
    if elapsed_ms > time_limit_ms {
        WatchdogAction::Kill(LimitVerdict::Tle)
    } else {
        match memory {
            Some(m) => if m > memory_limit {
                WatchdogAction::Kill(LimitVerdict::Mle)
            } else {
                WatchdogAction::Poll
            },
            None => WatchdogAction::Stop,
        }
    }
}

/// Decides what the watchdog does with one sample of the child's state.
pub fn watchdog_step(
    elapsed_ms: u128,
    time_limit_ms: u128,
    memory: Option<u64>,
    memory_limit: u64,
) -> (r: WatchdogAction)
    ensures
        r == spec_watchdog_step(elapsed_ms, time_limit_ms, memory, memory_limit),
        elapsed_ms > time_limit_ms ==> r == WatchdogAction::Kill(LimitVerdict::Tle),
{
    if elapsed_ms > time_limit_ms {
        WatchdogAction::Kill(LimitVerdict::Tle)
    } else {
        match memory {
            Some(m) => if m > memory_limit {
                WatchdogAction::Kill(LimitVerdict::Mle)
            } else {
                WatchdogAction::Poll
            },
            None => WatchdogAction::Stop,
        }
    }
}

/// Terminal status of one case run: the watchdog's verdict when it
/// recorded one, else `RE` on a failed exit, else `Running`, which here
/// means "ran to completion within limits" and sends the caller on to
/// output validation.
pub open spec fn spec_final_status(verdict: Option<LimitVerdict>, exit_success: bool) -> TestCaseStatus {
    match verdict {
        Some(LimitVerdict::Tle) => TestCaseStatus::TLE,
        Some(LimitVerdict::Mle) => TestCaseStatus::MLE,
        None => if exit_success {
            TestCaseStatus::Running
        } else {
            TestCaseStatus::RE
        },
    }
}

/// Merges the watchdog's verdict with the child's exit status into the
/// case's terminal status.
pub fn final_status(verdict: Option<LimitVerdict>, exit_success: bool) -> (r: TestCaseStatus)
    ensures
        r == spec_final_status(verdict, exit_success),
{
    match verdict {
        Some(LimitVerdict::Tle) => TestCaseStatus::TLE,
        Some(LimitVerdict::Mle) => TestCaseStatus::MLE,
        None => if exit_success {
            TestCaseStatus::Running
        } else {
            TestCaseStatus::RE
        },
    }
}

/// Exactly one terminal outcome is produced for a single case run: the
/// merged status is always one of `TLE`, `MLE`, `RE` or "completed", and
/// which one it is follows uniquely from the watchdog verdict and the
/// exit status — `TLE` if and only if the watchdog recorded a time
/// violation, `MLE` if and only if it recorded a memory violation, `RE`
/// if and only if it recorded nothing and the exit failed, "completed"
/// if and only if it recorded nothing and the exit succeeded.
pub proof fn lemma_watchdog_exclusive(verdict: Option<LimitVerdict>, exit_success: bool)
    ensures
        ({
            let s = spec_final_status(verdict, exit_success);
            &&& (s == TestCaseStatus::TLE || s == TestCaseStatus::MLE || s == TestCaseStatus::RE
                || s == TestCaseStatus::Running)
            &&& (s == TestCaseStatus::TLE <==> verdict == Some(LimitVerdict::Tle))
            &&& (s == TestCaseStatus::MLE <==> verdict == Some(LimitVerdict::Mle))
            &&& (s == TestCaseStatus::RE <==> verdict is None && !exit_success)
            &&& (s == TestCaseStatus::Running <==> verdict is None && exit_success)
        }),
{
}

/// A case whose elapsed time has passed the limit is always killed with
/// a time-limit verdict, whatever its memory use: a program that sleeps
/// past the time limit can only end in `TLE`, never in an accepting
/// status.
pub proof fn lemma_overtime_always_tle(
    elapsed_ms: u128,
    time_limit_ms: u128,
    memory: Option<u64>,
    memory_limit: u64,
)
    requires
        elapsed_ms > time_limit_ms,
    ensures
        spec_watchdog_step(elapsed_ms, time_limit_ms, memory, memory_limit) == WatchdogAction::Kill(
            LimitVerdict::Tle,
        ),
        spec_final_status(Some(LimitVerdict::Tle), false) == TestCaseStatus::TLE,
        spec_final_status(Some(LimitVerdict::Tle), true) == TestCaseStatus::TLE,
{
}

} // verus!
