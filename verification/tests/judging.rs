use tuack_ng::expected::{check_test_case, eval_condition, ExpectedScore, TestCase};
use tuack_ng::judge::{
    compile_failure_result, judge_tester, resolve_items, sort_items_by_id, total_max_score,
    ExpandedDataItem, SubtaskPolicy,
};
use tuack_ng::report::render_report;
use tuack_ng::score::{awarded_score, normalize_score, subtask_score, ScorePolicy};
use tuack_ng::status::{status_of_verdict, JudgeResult, TestCaseStatus};
use tuack_ng::watchdog::{final_status, watchdog_step, LimitVerdict, WatchdogAction};

fn item(id: u32, score: u32, subtask: u32) -> ExpandedDataItem {
    ExpandedDataItem { id, score, subtask }
}

#[test]
fn normalize_clamps_high_scores() {
    assert_eq!(normalize_score(false, 150_000), 100_000);
    assert_eq!(normalize_score(false, 100_001), 100_000);
}

#[test]
fn normalize_clamps_negative_scores() {
    assert_eq!(normalize_score(true, 5_000), 0);
    assert_eq!(normalize_score(true, 0), 0);
}

#[test]
fn normalize_keeps_scores_in_range() {
    assert_eq!(normalize_score(false, 42_857), 42_857);
    assert_eq!(normalize_score(false, 0), 0);
    assert_eq!(normalize_score(false, 100_000), 100_000);
}

#[test]
fn awarded_score_full_on_ac() {
    assert_eq!(awarded_score(TestCaseStatus::AC, 60), 60);
}

#[test]
fn awarded_score_rounds_partial_credit() {
    // 42.857% of 7 points is 2.99999, rounding to 3.
    assert_eq!(awarded_score(TestCaseStatus::PC(42_857), 7), 3);
    // Half a point rounds up: 50% of 5 is 2.5.
    assert_eq!(awarded_score(TestCaseStatus::PC(50_000), 5), 3);
    assert_eq!(awarded_score(TestCaseStatus::PC(100_000), 40), 40);
    assert_eq!(awarded_score(TestCaseStatus::PC(0), 40), 0);
}

#[test]
fn awarded_score_zero_otherwise() {
    for status in [
        TestCaseStatus::WA,
        TestCaseStatus::TLE,
        TestCaseStatus::MLE,
        TestCaseStatus::RE,
        TestCaseStatus::UKE,
        TestCaseStatus::CE,
        TestCaseStatus::Running,
    ] {
        assert_eq!(awarded_score(status, 100), 0);
    }
}

#[test]
fn subtask_sum_policy_adds() {
    assert_eq!(subtask_score(ScorePolicy::Sum, &vec![10, 20, 30]), 60);
}

#[test]
fn subtask_extremum_policies() {
    assert_eq!(subtask_score(ScorePolicy::Max, &vec![10, 30, 20]), 30);
    assert_eq!(subtask_score(ScorePolicy::Min, &vec![10, 30, 20]), 10);
    assert_eq!(subtask_score(ScorePolicy::Min, &vec![7]), 7);
}

#[test]
fn subtask_empty_list_is_zero() {
    assert_eq!(subtask_score(ScorePolicy::Sum, &vec![]), 0);
    assert_eq!(subtask_score(ScorePolicy::Max, &vec![]), 0);
    assert_eq!(subtask_score(ScorePolicy::Min, &vec![]), 0);
}

#[test]
fn compile_failure_has_single_ce_placeholder() {
    let items = vec![item(1, 60, 0), item(2, 40, 0)];
    let r = compile_failure_result("bad", &items);
    assert_eq!(r.tester_name, "bad");
    assert_eq!(r.test_case_results.len(), 1);
    assert_eq!(r.test_case_results[0].test_case_id, 0);
    assert_eq!(r.test_case_results[0].status, TestCaseStatus::CE);
    assert_eq!(r.test_case_results[0].score, 0);
    assert_eq!(r.test_case_results[0].max_score, 100);
    assert_eq!(r.total_score, 0);
    assert_eq!(r.max_possible_score, 100);
}

#[test]
fn watchdog_overtime_always_kills_with_tle() {
    for memory in [None, Some(0), Some(u64::MAX)] {
        assert_eq!(
            watchdog_step(1001, 1000, memory, 256),
            WatchdogAction::Kill(LimitVerdict::Tle)
        );
    }
}

#[test]
fn watchdog_memory_and_exit_decisions() {
    assert_eq!(
        watchdog_step(500, 1000, Some(300), 256),
        WatchdogAction::Kill(LimitVerdict::Mle)
    );
    assert_eq!(watchdog_step(500, 1000, Some(200), 256), WatchdogAction::Poll);
    assert_eq!(watchdog_step(500, 1000, None, 256), WatchdogAction::Stop);
}

#[test]
fn final_status_is_exactly_one_terminal_outcome() {
    assert_eq!(final_status(Some(LimitVerdict::Tle), true), TestCaseStatus::TLE);
    assert_eq!(final_status(Some(LimitVerdict::Tle), false), TestCaseStatus::TLE);
    assert_eq!(final_status(Some(LimitVerdict::Mle), false), TestCaseStatus::MLE);
    assert_eq!(final_status(None, false), TestCaseStatus::RE);
    assert_eq!(final_status(None, true), TestCaseStatus::Running);
}

#[test]
fn sleeping_program_always_times_out() {
    // Simulated supervision of a program that sleeps past the limit:
    // it stays alive with modest memory while the clock advances in
    // 50ms polling steps.  The watchdog must kill it with TLE, and the
    // merged status can never be an accepting one.
    let time_limit_ms: u128 = 100;
    let mut elapsed: u128 = 0;
    let verdict = loop {
        elapsed += 50;
        match watchdog_step(elapsed, time_limit_ms, Some(1024), 1 << 30) {
            WatchdogAction::Kill(v) => break Some(v),
            WatchdogAction::Stop => break None,
            WatchdogAction::Poll => continue,
        }
    };
    assert_eq!(verdict, Some(LimitVerdict::Tle));
    // Whatever the exit status of the killed child reports, the case is TLE.
    assert_eq!(final_status(verdict, true), TestCaseStatus::TLE);
    assert_eq!(final_status(verdict, false), TestCaseStatus::TLE);
}

#[test]
fn report_writes_partial_credit_rows() {
    let items = vec![item(1, 40, 0)];
    let subtasks = vec![SubtaskPolicy { id: 0, policy: ScorePolicy::Sum }];
    let statuses = vec![TestCaseStatus::PC(42_857)];
    let r = judge_tester("half", &items, &subtasks, &statuses);
    assert_eq!(r.test_case_results[0].score, 17);
    let report = render_report(&vec![r]);
    assert!(report.contains("half,1,PC,17,40\n"));
    assert!(report.contains("half,,TOTAL,17,40\n"));
}

#[test]
fn verdict_mapping_matches_protocol() {
    assert_eq!(status_of_verdict(JudgeResult::Accepted), TestCaseStatus::AC);
    assert_eq!(status_of_verdict(JudgeResult::WrongAnswer), TestCaseStatus::WA);
    assert_eq!(status_of_verdict(JudgeResult::PresentationError), TestCaseStatus::WA);
    assert_eq!(status_of_verdict(JudgeResult::Fail), TestCaseStatus::UKE);
    assert_eq!(status_of_verdict(JudgeResult::Score(42_000)), TestCaseStatus::PC(42_000));
}

#[test]
fn resolve_drops_undeclared_subtasks() {
    let items = vec![item(1, 60, 0), item(2, 40, 9), item(3, 10, 0)];
    let subtasks = vec![SubtaskPolicy { id: 0, policy: ScorePolicy::Sum }];
    let kept = resolve_items(&items, &subtasks);
    assert_eq!(kept.len(), 2);
    assert_eq!(kept[0].id, 1);
    assert_eq!(kept[1].id, 3);
}

#[test]
fn items_sort_by_ascending_id() {
    let items = vec![item(3, 30, 0), item(1, 10, 0), item(2, 20, 1), item(1, 99, 2)];
    let sorted = sort_items_by_id(items);
    let ids: Vec<u32> = sorted.iter().map(|i| i.id).collect();
    assert_eq!(ids, vec![1, 1, 2, 3]);
    assert_eq!(sorted.len(), 4);
    assert!(sorted.iter().any(|i| i.score == 99));
    assert!(sorted.iter().any(|i| i.score == 10));
}

#[test]
fn total_max_sums_all_items() {
    let items = vec![item(1, 60, 0), item(2, 40, 9)];
    assert_eq!(total_max_score(&items), 100);
}

#[test]
fn no_op_tester_scores_zero_end_to_end() {
    // A problem with two data items worth 60 and 40, both in subtask 0
    // under the Sum policy; the tester's program produced wrong answers
    // on both cases.
    let items = vec![item(1, 60, 0), item(2, 40, 0)];
    let subtasks = vec![SubtaskPolicy { id: 0, policy: ScorePolicy::Sum }];
    let statuses = vec![TestCaseStatus::WA, TestCaseStatus::WA];
    let r = judge_tester("noop", &items, &subtasks, &statuses);
    assert_eq!(r.test_case_results.len(), 2);
    assert_eq!(r.test_case_results[0].status, TestCaseStatus::WA);
    assert_eq!(r.test_case_results[0].score, 0);
    assert_eq!(r.test_case_results[1].status, TestCaseStatus::WA);
    assert_eq!(r.test_case_results[1].score, 0);
    assert_eq!(r.total_score, 0);
    assert_eq!(r.max_possible_score, 100);

    let tc = TestCase {
        path: "sol/noop.cpp".to_string(),
        expected: ExpectedScore::Single("== 100".to_string()),
    };
    assert!(!check_test_case(&tc, r.total_score));

    let report = render_report(&vec![r]);
    assert_eq!(
        report,
        "测试者,测试点ID,状态,得分,最高分\n\
         noop,1,WA,0,60\n\
         noop,2,WA,0,40\n\
         noop,,TOTAL,0,100\n"
    );
}

#[test]
fn judge_tester_applies_policies_per_subtask() {
    let items = vec![item(1, 30, 0), item(2, 30, 0), item(3, 40, 1), item(4, 40, 1)];
    let subtasks = vec![
        SubtaskPolicy { id: 0, policy: ScorePolicy::Sum },
        SubtaskPolicy { id: 1, policy: ScorePolicy::Min },
    ];
    let statuses = vec![
        TestCaseStatus::AC,
        TestCaseStatus::WA,
        TestCaseStatus::AC,
        TestCaseStatus::PC(50_000),
    ];
    let r = judge_tester("mixed", &items, &subtasks, &statuses);
    // Subtask 0 (Sum): 30 + 0 = 30.  Subtask 1 (Min): min(40, 20) = 20.
    assert_eq!(r.total_score, 50);
    assert_eq!(r.max_possible_score, 140);
    assert_eq!(r.test_case_results[3].score, 20);
}

#[test]
fn report_rendering_is_idempotent() {
    let items = vec![item(1, 60, 0), item(2, 40, 0)];
    let subtasks = vec![SubtaskPolicy { id: 0, policy: ScorePolicy::Sum }];
    let statuses = vec![TestCaseStatus::AC, TestCaseStatus::WA];
    let first = {
        let r = judge_tester("solver", &items, &subtasks, &statuses);
        render_report(&vec![r])
    };
    let second = {
        let r = judge_tester("solver", &items, &subtasks, &statuses);
        render_report(&vec![r])
    };
    assert_eq!(first.as_bytes(), second.as_bytes());
}

#[test]
fn report_quotes_fields_that_need_it() {
    let items = vec![item(1, 100, 0)];
    let subtasks = vec![SubtaskPolicy { id: 0, policy: ScorePolicy::Sum }];
    let statuses = vec![TestCaseStatus::AC];
    let r = judge_tester("we,ird\"name", &items, &subtasks, &statuses);
    let report = render_report(&vec![r]);
    assert!(report.contains("\"we,ird\"\"name\",1,AC,100,100\n"));
}

#[test]
fn conditions_compare_against_total_score() {
    assert!(eval_condition("== 100", 100));
    assert!(!eval_condition("== 100", 99));
    assert!(eval_condition(">= 50", 50));
    assert!(!eval_condition(">= 50", 49));
    assert!(eval_condition("< 10", 9));
    assert!(eval_condition("> 10", 11));
    assert!(eval_condition("!= 0", 5));
    assert!(eval_condition("<=100", 100));
}

#[test]
fn malformed_conditions_never_hold() {
    assert!(!eval_condition("oops", 100));
    assert!(!eval_condition("== ", 100));
    assert!(!eval_condition("== 1x", 100));
    assert!(!eval_condition("", 100));
}

#[test]
fn all_conditions_must_hold() {
    let tc = TestCase {
        path: "a.cpp".to_string(),
        expected: ExpectedScore::Multiple(vec![">= 50".to_string(), "< 100".to_string()]),
    };
    assert!(check_test_case(&tc, 70));
    assert!(!check_test_case(&tc, 100));
    assert!(!check_test_case(&tc, 30));
    let none = TestCase {
        path: "a.cpp".to_string(),
        expected: ExpectedScore::Multiple(vec![]),
    };
    assert!(check_test_case(&none, 0));
}
