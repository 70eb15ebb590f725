use foundry_judge::report::{failure, malformed_output, no_files, render_report, score, Stage};
use foundry_judge::scoring::{Attribute, QuestionCase, TestOutcome};

fn question(name: &str, declared: i64) -> QuestionCase {
    QuestionCase {
        function_name: name.to_string(),
        declared_score: declared,
        attributes: Vec::new(),
        passed: false,
    }
}

fn outcome(signature: &str, status: &str) -> TestOutcome {
    TestOutcome { signature: signature.to_string(), status: status.to_string() }
}

#[test]
fn passing_question_earns_its_score() {
    let cases = vec![question("test_addition", 10)];
    let outcomes = vec![outcome("test_addition()", "Success")];
    let r = score(&cases, &outcomes);
    assert_eq!(r.total_score, 10);
    assert_eq!(r.get_score, 10);
    assert_eq!(r.code, 0);
    assert_eq!(r.info, "Complete");
    assert_eq!(r.msg, "Complete");
    assert!(r.questions[0].passed);
}

#[test]
fn failing_question_earns_nothing() {
    let cases = vec![question("test_addition", 10)];
    let outcomes = vec![outcome("test_addition()", "Failure")];
    let r = score(&cases, &outcomes);
    assert_eq!(r.total_score, 10);
    assert_eq!(r.get_score, 0);
    assert_eq!(r.code, 0);
    assert!(!r.questions[0].passed);
}

#[test]
fn unreached_question_counts_in_total_only() {
    let cases = vec![question("test_a", 3), question("test_b", 4), question("test_c", 5)];
    let outcomes = vec![outcome("test_a()", "Success"), outcome("test_c()", "Failure")];
    let r = score(&cases, &outcomes);
    assert_eq!(r.total_score, 12);
    assert_eq!(r.get_score, 3);
    assert!(r.questions[0].passed);
    assert!(!r.questions[1].passed);
    assert!(!r.questions[2].passed);
}

#[test]
fn unreached_question_keeps_its_mark() {
    let mut q = question("test_b", 4);
    q.passed = true;
    let r = score(&vec![q], &Vec::new());
    assert!(r.questions[0].passed);
    assert_eq!(r.get_score, 0);
    assert_eq!(r.total_score, 4);
}

#[test]
fn scoring_twice_agrees() {
    let cases = vec![question("test_a", 3), question("test_b", 4)];
    let outcomes = vec![outcome("test_b()", "Success"), outcome("test_b()", "Failure")];
    let first = score(&cases, &outcomes);
    let second = score(&cases, &outcomes);
    let again = score(&first.questions, &outcomes);
    for r in [&second, &again] {
        assert_eq!(r.total_score, first.total_score);
        assert_eq!(r.get_score, first.get_score);
        for (a, b) in r.questions.iter().zip(first.questions.iter()) {
            assert_eq!(a.passed, b.passed);
        }
    }
    assert_eq!(first.get_score, 4);
}

#[test]
fn sums_do_not_overflow() {
    let cases = vec![question("test_a", i64::MAX), question("test_b", i64::MAX)];
    let outcomes = vec![outcome("test_a()", "Success"), outcome("test_b()", "Success")];
    let r = score(&cases, &outcomes);
    assert_eq!(r.total_score, 2 * (i64::MAX as i128));
    assert_eq!(r.get_score, 2 * (i64::MAX as i128));
}

#[test]
fn failure_reports_carry_stage_code() {
    let cases = vec![question("test_a", 3)];
    let r = failure(Stage::CompileFailed, "error: x".to_string(), &cases);
    assert_eq!(r.code, 1);
    assert_eq!(r.info, "Compile failed");
    assert_eq!(r.msg, "error: x");
    assert_eq!(r.total_score, 3);
    assert_eq!(r.get_score, 0);
    assert_eq!(r.questions.len(), 1);
    assert_eq!(failure(Stage::BuildFailed, String::new(), &cases).code, 3);
    assert_eq!(failure(Stage::TestRunFailed, String::new(), &cases).code, 4);
    let m = malformed_output(&cases);
    assert_eq!(m.code, 2);
    assert_eq!(m.info, "Result not json");
    assert_eq!(m.msg, "No files");
}

#[test]
fn empty_submission_report() {
    let r = no_files();
    assert_eq!(r.code, 2);
    assert_eq!(r.info, "Result not json");
    assert_eq!(r.msg, "No files");
    assert_eq!(r.total_score, 0);
    assert_eq!(r.get_score, 0);
    assert!(r.questions.is_empty());
}

#[test]
fn report_is_rendered_as_json() {
    let mut q = question("test_addition", 10);
    q.attributes.push(Attribute { name: "Score".to_string(), value: "10".to_string() });
    q.attributes.push(Attribute { name: "Title".to_string(), value: "adds".to_string() });
    let outcomes = vec![outcome("test_addition()", "Success")];
    let r = score(&vec![q], &outcomes);
    assert_eq!(
        render_report(&r),
        "{\"code\":0,\"get_score\":10,\"info\":\"Complete\",\"msg\":\"Complete\",\"questions\":[{\"Func\":\"test_addition\",\"Passed\":true,\"Score\":10,\"Title\":\"adds\"}],\"total_score\":10}"
    );
}
