use tuack_ng::checker::{checker_status, parse_result, CheckerError};
use tuack_ng::dmk::{parse_test_object, DmkArgs, DmkCommand, Target};
use tuack_ng::status::{JudgeResult, TestCaseStatus};
use tuack_ng::strutil::{i64_str, u32_str, u64_str};
use tuack_ng::template::{cases, comma};

#[test]
fn accepted_outcome_parses() {
    let (verdict, message) = parse_result("<result outcome=\"accepted\">ok</result>").unwrap();
    assert_eq!(verdict, JudgeResult::Accepted);
    assert_eq!(message, "ok");
}

#[test]
fn wrong_answer_and_presentation_error_parse() {
    let (v, _) = parse_result("<result outcome=\"wrong-answer\">bad</result>").unwrap();
    assert_eq!(v, JudgeResult::WrongAnswer);
    let (v, _) = parse_result("<result outcome=\"presentation-error\"></result>").unwrap();
    assert_eq!(v, JudgeResult::PresentationError);
}

#[test]
fn fail_outcome_parses() {
    let (v, _) = parse_result("<result outcome=\"fail\">checker bug</result>").unwrap();
    assert_eq!(v, JudgeResult::Fail);
}

#[test]
fn partial_credit_reads_pctype() {
    let (v, m) =
        parse_result("<result outcome=\"partially-correct\" pctype=\"42.0\">case 3: partial</result>")
            .unwrap();
    assert_eq!(v, JudgeResult::Score(42_000));
    assert_eq!(m, "case 3: partial");
}

#[test]
fn points_outcome_reads_points() {
    let (v, _) = parse_result("<result outcome=\"points\" points=\"13.625\">t</result>").unwrap();
    assert_eq!(v, JudgeResult::Score(13_625));
}

#[test]
fn partial_scores_clamp_to_range() {
    let (v, _) =
        parse_result("<result outcome=\"points\" points=\"150\">over</result>").unwrap();
    assert_eq!(v, JudgeResult::Score(100_000));
    let (v, _) =
        parse_result("<result outcome=\"points\" points=\"-3.5\">under</result>").unwrap();
    assert_eq!(v, JudgeResult::Score(0));
}

#[test]
fn missing_score_attribute_counts_zero() {
    let (v, _) = parse_result("<result outcome=\"partially-correct\">hm</result>").unwrap();
    assert_eq!(v, JudgeResult::Score(0));
}

#[test]
fn unparsable_score_is_an_error() {
    let r = parse_result("<result outcome=\"points\" points=\"abc\">x</result>");
    assert_eq!(r.unwrap_err(), CheckerError::BadScore);
}

#[test]
fn unknown_outcome_is_an_error() {
    let r = parse_result("<result outcome=\"mystery\">x</result>");
    assert_eq!(r.unwrap_err(), CheckerError::UnknownOutcome);
}

#[test]
fn missing_outcome_is_malformed() {
    assert_eq!(
        parse_result("<result pctype=\"3\">x</result>").unwrap_err(),
        CheckerError::Malformed
    );
    assert_eq!(parse_result("no xml at all").unwrap_err(), CheckerError::Malformed);
    assert_eq!(parse_result("").unwrap_err(), CheckerError::Malformed);
    assert_eq!(
        parse_result("<result outcome=\"accepted\">unterminated").unwrap_err(),
        CheckerError::Malformed
    );
}

#[test]
fn prolog_and_whitespace_are_skipped() {
    let (v, m) = parse_result(
        "  <?xml version=\"1.0\" encoding=\"windows-1251\"?>\n<result outcome = \"accepted\">fine</result>\n",
    )
    .unwrap();
    assert_eq!(v, JudgeResult::Accepted);
    assert_eq!(m, "fine");
}

#[test]
fn self_closing_result_has_empty_message() {
    let (v, m) = parse_result("<result outcome=\"accepted\"/>").unwrap();
    assert_eq!(v, JudgeResult::Accepted);
    assert_eq!(m, "");
}

#[test]
fn single_quoted_attributes_parse() {
    let (v, _) = parse_result("<result outcome='points' points='7'>q</result>").unwrap();
    assert_eq!(v, JudgeResult::Score(7_000));
}

#[test]
fn checker_status_degrades_to_uke() {
    let (status, _) = checker_status("garbage");
    assert_eq!(status, TestCaseStatus::UKE);
    let (status, _) = checker_status("<result outcome=\"fail\">broken</result>");
    assert_eq!(status, TestCaseStatus::UKE);
    let (status, msg) = checker_status("<result outcome=\"accepted\">all good</result>");
    assert_eq!(status, TestCaseStatus::AC);
    assert_eq!(msg, "all good");
    let (status, _) =
        checker_status("<result outcome=\"partially-correct\" pctype=\"99.9\">p</result>");
    assert_eq!(status, TestCaseStatus::PC(99_900));
}

#[test]
fn select_all_keeps_every_id() {
    let ids = [1, 2, 3, 7];
    let got = parse_test_object("all", &ids).unwrap();
    assert_eq!(got, vec![1, 2, 3, 7]);
    let got = parse_test_object("  ALL  ", &ids).unwrap();
    assert_eq!(got, vec![1, 2, 3, 7]);
}

#[test]
fn select_ranges_and_singles() {
    let ids = [1, 2, 3, 4, 5, 6, 10];
    let got = parse_test_object("1,2-3,4-10", &ids).unwrap();
    assert_eq!(got, vec![1, 2, 3, 4, 5, 6, 10]);
    let got = parse_test_object("2-4", &ids).unwrap();
    assert_eq!(got, vec![2, 3, 4]);
    let got = parse_test_object("5", &ids).unwrap();
    assert_eq!(got, vec![5]);
    let got = parse_test_object("2-2", &ids).unwrap();
    assert_eq!(got, vec![2]);
}

#[test]
fn selection_ignores_unknown_ids_and_empty_parts() {
    let ids = [1, 2, 3];
    let got = parse_test_object("1,,9", &ids).unwrap();
    assert_eq!(got, vec![1]);
    let got = parse_test_object(" 2 , 3 ", &ids).unwrap();
    assert_eq!(got, vec![2, 3]);
}

#[test]
fn malformed_selections_are_errors() {
    let ids = [1, 2, 3];
    assert!(parse_test_object("x", &ids).is_err());
    assert!(parse_test_object("5-3", &ids).is_err());
    assert!(parse_test_object("1-", &ids).is_err());
    assert!(parse_test_object("-3", &ids).is_err());
    assert!(parse_test_object("1-2-3", &ids).is_err());
}

#[test]
fn dmk_argument_types_round_trip() {
    let args = DmkArgs {
        target: Target::Data,
        action: DmkCommand::Gen,
        object: "all".to_string(),
    };
    assert_eq!(args.target.as_str(), "data");
    assert_eq!(Target::Sample.as_str(), "sample");
    assert_eq!(args.action, DmkCommand::Gen);
}

#[test]
fn decimal_rendering() {
    assert_eq!(u32_str(0), "0");
    assert_eq!(u32_str(42), "42");
    assert_eq!(u64_str(18_446_744_073_709_551_615), "18446744073709551615");
    assert_eq!(i64_str(-42), "-42");
    assert_eq!(i64_str(i64::MIN), "-9223372036854775808");
}

#[test]
fn comma_groups_thousands() {
    assert_eq!(comma(0), "0");
    assert_eq!(comma(123), "123");
    assert_eq!(comma(1234), "1,234");
    assert_eq!(comma(1234567), "1,234,567");
    assert_eq!(comma(-1000), "-1,000");
}

#[test]
fn cases_merges_consecutive_runs() {
    assert_eq!(cases(vec![]), "$");
    assert_eq!(cases(vec![7]), "$7$");
    assert_eq!(cases(vec![1, 2]), "$1,2$");
    assert_eq!(cases(vec![1, 2, 3, 5]), "$1 \\sim 3,5$");
    assert_eq!(cases(vec![1, 3, 5]), "$1,3,5$");
    assert_eq!(cases(vec![1, 2, 3, 4, 8, 9, 10, 12]), "$1 \\sim 4,8 \\sim 10,12$");
}
