use foundry_judge::server::{BrokerItem, BrokerValue};
use foundry_judge::toolchain::{
    build_arguments, judge_build, judge_test, outcomes_from_json, strip_ansi, test_arguments, ToolRun,
};
use foundry_judge::json::Json;
use foundry_judge::scoring::QuestionCase;
use foundry_judge::worker::{step, WorkerAction, WorkerEvent, WorkerSlot, WorkerState};
use foundry_judge::workspace::{
    create_files_as_job_message, join, parent, path_stays_below, slot_directory_name, Workspace,
};
use foundry_judge::job::{JobMessage, PathWithContent};
use foundry_judge::report::{failure, Stage};
use foundry_judge::server::{error_of, read_dir_error, ErrorCode};

const TEST_SOURCE: &str = "contract T {\n    /*\n     * @Score: 10\n     */\n    function test_addition() public {\n    }\n}\n";

fn payload(files: &str) -> String {
    format!(
        "{{\"questionNo\":\"q1\",\"solcVersion\":\"0.8.20\",\"judgeJobId\":\"job-7\",\"jobKey\":\"smc-open-foundry-judge:q1\",\"pathWithContent\":[{}]}}",
        files
    )
}

fn popped(files: &str) -> WorkerEvent {
    WorkerEvent::Popped(Some(BrokerValue::Bulk(vec![
        BrokerItem::Data(b"test".to_vec()),
        BrokerItem::Data(payload(files).into_bytes()),
    ])))
}

fn slot() -> WorkerSlot {
    WorkerSlot { slot_index: 3, worker_dir: "tmp/worker".to_string() }
}

fn forge_output(status: &str) -> String {
    format!(
        "{{\"test/T.t.sol:T\":{{\"duration\":\"1ms\",\"test_results\":{{\"test_addition()\":{{\"status\":\"{}\",\"reason\":null}}}}}}}}",
        status
    )
}

fn run_job_until_build(files: &str) -> WorkerState {
    let slot = slot();
    let (state, action) = step(&slot, WorkerState::Idle, popped(files));
    assert!(matches!(state, WorkerState::Claiming(_)));
    assert!(matches!(action, WorkerAction::Proceed));
    let (state, action) = step(&slot, state, WorkerEvent::Tick);
    match action {
        WorkerAction::Materialize { files, output_dir, test_dir } => {
            assert_eq!(files.len(), 1);
            assert_eq!(files[0].path, "tmp/worker/03/q1/test/T.t.sol");
            assert_eq!(files[0].directory, "tmp/worker/03/q1/test");
            assert_eq!(output_dir, "tmp/worker/03/q1/output");
            assert_eq!(test_dir, "tmp/worker/03/q1/test");
        }
        other => panic!("{:?}", other),
    }
    assert!(matches!(state, WorkerState::Materializing(_)));
    let (state, action) = step(&slot, state, WorkerEvent::Materialized(vec![TEST_SOURCE.to_string()]));
    match action {
        WorkerAction::Build { setup, arguments } => {
            assert_eq!(
                arguments,
                vec![
                    "build", "--contracts", "tmp/worker/03/q1", "--cache-path", "tmp/worker/03/q1/cache",
                    "--out", "tmp/worker/03/q1/out", "--use", "0.8.20"
                ]
            );
            assert_eq!(setup.root, "tmp/worker/03/q1");
            assert_eq!(setup.cache_dir, "tmp/worker/03/q1/cache");
            assert_eq!(setup.cache_file, "tmp/worker/03/q1/cache/solidity-files-cache.json");
            assert_eq!(setup.out_dir, "tmp/worker/03/q1/out");
            assert_eq!(setup.link, "tmp/worker/03/q1/out/0.8.20");
            assert_eq!(setup.shared, "out/0.8.20");
        }
        other => panic!("{:?}", other),
    }
    match &state {
        WorkerState::Building { questions, testing, .. } => {
            assert!(!*testing);
            assert_eq!(questions.len(), 1);
            assert_eq!(questions[0].function_name, "test_addition");
            assert_eq!(questions[0].declared_score, 10);
        }
        other => panic!("{:?}", other),
    }
    state
}

fn finish_job(state: WorkerState, build: ToolRun, test: Option<ToolRun>) -> String {
    let slot = slot();
    let (mut state, mut action) = step(&slot, state, WorkerEvent::ToolFinished(build));
    if let Some(test) = test {
        match &action {
            WorkerAction::Test { arguments } => {
                assert_eq!(
                    arguments,
                    &vec![
                        "test", "--contracts", "tmp/worker/03/q1", "--cache-path",
                        "tmp/worker/03/q1/cache", "--out", "tmp/worker/03/q1/out", "--json", "--use",
                        "0.8.20", "--offline", "--allow-failure"
                    ]
                );
            }
            other => panic!("{:?}", other),
        }
        let next = step(&slot, state, WorkerEvent::ToolFinished(test));
        state = next.0;
        action = next.1;
    }
    assert!(matches!(state, WorkerState::Scoring { .. }));
    assert!(matches!(action, WorkerAction::Proceed));
    let (state, action) = step(&slot, state, WorkerEvent::Tick);
    assert!(matches!(state, WorkerState::Replying { .. }));
    let text = match action {
        WorkerAction::Publish { output_file, request_key, response_key, payload, .. } => {
            assert_eq!(output_file.as_deref(), Some("tmp/worker/03/q1/output/output.json"));
            assert_eq!(request_key, "smc-open-foundry-judge:q1:request");
            assert_eq!(response_key, "smc-open-foundry-judge:q1:response");
            payload
        }
        other => panic!("{:?}", other),
    };
    for delivered in [true, false] {
        let replying = WorkerState::Replying { job_key: "k".to_string(), payload: text.clone() };
        let (state, action) = step(&slot, replying, WorkerEvent::Delivered(delivered));
        assert!(matches!(state, WorkerState::Idle));
        assert!(matches!(action, WorkerAction::Pop { delay_ms: 20, timeout_seconds: 1 }));
    }
    text
}

const ONE_FILE: &str = "{\"path\":\"test/T.t.sol\",\"content\":\"x\"}";

fn silent() -> ToolRun {
    ToolRun::Finished { stdout: "Compiling...".to_string(), stderr: String::new() }
}

#[test]
fn job_with_passing_test_scores_full() {
    let state = run_job_until_build(ONE_FILE);
    let test = ToolRun::Finished { stdout: forge_output("Success"), stderr: String::new() };
    let text = finish_job(state, silent(), Some(test));
    assert_eq!(
        text,
        "{\"code\":0,\"get_score\":10,\"info\":\"Complete\",\"msg\":\"Complete\",\"questions\":[{\"Func\":\"test_addition\",\"Passed\":true,\"Score\":10}],\"total_score\":10}"
    );
}

#[test]
fn job_with_failing_test_scores_nothing() {
    let state = run_job_until_build(ONE_FILE);
    let test = ToolRun::Finished { stdout: forge_output("Failure"), stderr: String::new() };
    let text = finish_job(state, silent(), Some(test));
    assert_eq!(
        text,
        "{\"code\":0,\"get_score\":0,\"info\":\"Complete\",\"msg\":\"Complete\",\"questions\":[{\"Func\":\"test_addition\",\"Passed\":false,\"Score\":10}],\"total_score\":10}"
    );
}

#[test]
fn job_with_failing_build_reports_compiler_output() {
    let state = run_job_until_build(ONE_FILE);
    let build = ToolRun::Finished {
        stdout: String::new(),
        stderr: "\u{1b}[1;31mError\u{1b}[0m: expected ';'\n".to_string(),
    };
    let text = finish_job(state, build, None);
    assert_eq!(
        text,
        "{\"code\":1,\"get_score\":0,\"info\":\"Compile failed\",\"msg\":\"Error: expected ';'\\n\",\"questions\":[{\"Func\":\"test_addition\",\"Passed\":false,\"Score\":10}],\"total_score\":10}"
    );
}

#[test]
fn job_whose_tests_write_no_json_is_malformed() {
    let state = run_job_until_build(ONE_FILE);
    let test = ToolRun::Finished { stdout: "panicked".to_string(), stderr: String::new() };
    let text = finish_job(state, silent(), Some(test));
    assert!(text.starts_with("{\"code\":2,\"get_score\":0,\"info\":\"Result not json\",\"msg\":\"No files\""));
}

#[test]
fn job_whose_toolchain_cannot_run() {
    let state = run_job_until_build(ONE_FILE);
    let text = finish_job(state, ToolRun::Failed("No such file".to_string()), None);
    assert!(text.starts_with("{\"code\":3,\"get_score\":0,\"info\":\"Build failed\",\"msg\":\"No such file\""));
    let state = run_job_until_build(ONE_FILE);
    let text = finish_job(state, silent(), Some(ToolRun::Failed("gone".to_string())));
    assert!(text.starts_with("{\"code\":4,\"get_score\":0,\"info\":\"Test failed\",\"msg\":\"gone\""));
}

#[test]
fn empty_submission_is_answered_without_build() {
    let slot = slot();
    let (state, _) = step(&slot, WorkerState::Idle, popped(""));
    let (state, action) = step(&slot, state, WorkerEvent::Tick);
    assert!(matches!(state, WorkerState::Replying { .. }));
    match action {
        WorkerAction::Publish { stage, output_file, request_key, response_key, payload } => {
            assert_eq!(stage, Stage::NoFiles);
            assert!(output_file.is_none());
            assert_eq!(request_key, "smc-open-foundry-judge:q1:request");
            assert_eq!(response_key, "smc-open-foundry-judge:q1:response");
            assert_eq!(
                payload,
                "{\"code\":2,\"get_score\":0,\"info\":\"Result not json\",\"msg\":\"No files\",\"questions\":[],\"total_score\":0}"
            );
        }
        other => panic!("{:?}", other),
    }
    let (state, action) = step(&slot, state, WorkerEvent::Delivered(false));
    assert!(matches!(state, WorkerState::Idle));
    assert!(matches!(action, WorkerAction::Pop { .. }));
}

#[test]
fn idle_slot_keeps_popping() {
    let slot = slot();
    for event in [
        WorkerEvent::Popped(None),
        WorkerEvent::Tick,
        WorkerEvent::Delivered(true),
        WorkerEvent::Materialized(Vec::new()),
    ] {
        let (state, action) = step(&slot, WorkerState::Idle, event);
        assert!(matches!(state, WorkerState::Idle));
        assert!(matches!(action, WorkerAction::Pop { delay_ms: 20, timeout_seconds: 1 }));
    }
}

#[test]
fn malformed_payload_is_dropped() {
    let slot = slot();
    for rv in [
        BrokerValue::Nil,
        BrokerValue::Other("int(1)".to_string()),
        BrokerValue::Bulk(vec![BrokerItem::Data(b"test".to_vec()), BrokerItem::Data(b"{oops".to_vec())]),
    ] {
        let (state, action) = step(&slot, WorkerState::Claiming(rv), WorkerEvent::Tick);
        assert!(matches!(state, WorkerState::Idle));
        assert!(matches!(action, WorkerAction::Pop { .. }));
    }
}

#[test]
fn unexpected_event_restarts_at_idle() {
    let slot = slot();
    let state = run_job_until_build(ONE_FILE);
    let (state, action) = step(&slot, state, WorkerEvent::Delivered(true));
    assert!(matches!(state, WorkerState::Idle));
    assert!(matches!(action, WorkerAction::Pop { .. }));
}

#[test]
fn ansi_sequences_are_stripped() {
    assert_eq!(strip_ansi("\u{1b}[31mred\u{1b}[0m plain \u{1b}[1;32mgreen\u{1b}[m"), "red plain green\u{1b}[m");
    assert_eq!(strip_ansi("nothing"), "nothing");
    assert_eq!(strip_ansi(""), "");
}

#[test]
fn build_verdicts() {
    let questions: Vec<QuestionCase> = Vec::new();
    assert!(judge_build(&silent(), &questions).is_none());
    let refused = ToolRun::Finished { stdout: String::new(), stderr: "e".to_string() };
    let r = judge_build(&refused, &questions).unwrap();
    assert_eq!(r.code, 1);
    assert_eq!(r.msg, "e");
    let r = judge_test(&ToolRun::Finished { stdout: "[]".to_string(), stderr: String::new() }, &questions);
    assert_eq!(r.code, 0);
}

#[test]
fn outcomes_are_read_from_every_contract() {
    let doc = Json::from_text(
        "{\"a.sol:A\":{\"test_results\":{\"test_x()\":{\"status\":\"Success\"},\"test_y()\":{\"status\":5}}},\"b.sol:B\":{\"test_results\":{\"test_z()\":{\"status\":\"Failure\"}}},\"c\":{},\"d\":7}",
    )
    .unwrap();
    let outcomes = outcomes_from_json(&doc);
    assert_eq!(outcomes.len(), 2);
    assert_eq!(outcomes[0].signature, "test_x()");
    assert_eq!(outcomes[0].status, "Success");
    assert_eq!(outcomes[1].signature, "test_z()");
    assert_eq!(outcomes[1].status, "Failure");
    assert!(outcomes_from_json(&Json::Null).is_empty());
}

#[test]
fn workspace_layout() {
    assert_eq!(slot_directory_name(0), "00");
    assert_eq!(slot_directory_name(7), "07");
    assert_eq!(slot_directory_name(19), "19");
    assert_eq!(slot_directory_name(120), "120");
    assert_eq!(join("a", "b"), "a/b");
    let ws = Workspace::locate("tmp/worker", 5, "q9");
    assert_eq!(ws.root, "tmp/worker/05/q9");
    assert_eq!(ws.test, "tmp/worker/05/q9/test");
    assert_eq!(ws.output, "tmp/worker/05/q9/output");
    assert_eq!(ws.output_file, "tmp/worker/05/q9/output/output.json");
    assert_eq!(ws.cache, "tmp/worker/05/q9/cache");
    assert_eq!(ws.out, "tmp/worker/05/q9/out");
    assert_eq!(build_arguments(&ws, "0.8.21")[8], "0.8.21");
    assert_eq!(test_arguments(&ws, "0.8.21").len(), 12);
    assert_eq!(parent("a/b/c.sol"), "a/b");
    assert_eq!(parent("c.sol"), "");
    assert_eq!(parent("/c.sol"), "");
    assert_eq!(parent("a/"), "a");
}

#[test]
fn files_are_planned_below_the_workspace() {
    let mut job = JobMessage {
        question_no: "q1".to_string(),
        solc_version: "0.8.20".to_string(),
        judge_job_id: "j".to_string(),
        job_key: "k".to_string(),
        path_with_content: Vec::new(),
    };
    assert!(matches!(create_files_as_job_message(&job, 1, "w"), Err(ErrorCode::EmptyFile)));
    job.path_with_content.push(PathWithContent { path: "contracts/a/B.sol".to_string(), content: "b".to_string() });
    job.path_with_content.push(PathWithContent { path: "test/T.t.sol".to_string(), content: "t".to_string() });
    let plan = create_files_as_job_message(&job, 1, "w").unwrap();
    assert_eq!(plan.len(), 2);
    assert_eq!(plan[0].path, "w/01/q1/contracts/a/B.sol");
    assert_eq!(plan[0].directory, "w/01/q1/contracts/a");
    assert_eq!(plan[0].content, "b");
    assert_eq!(plan[1].path, "w/01/q1/test/T.t.sol");
    for f in &plan {
        assert!(f.path.starts_with("w/01/q1/"));
    }
}

#[test]
fn reports_stand_for_worker_errors() {
    let none: Vec<QuestionCase> = Vec::new();
    assert!(error_of(&failure(Stage::Complete, String::new(), &none)).is_none());
    match error_of(&failure(Stage::CompileFailed, "c".to_string(), &none)) {
        Some(ErrorCode::ForgeCompileFailure(m)) => assert_eq!(m, "c"),
        other => panic!("{:?}", other),
    }
    match error_of(&failure(Stage::BuildFailed, "b".to_string(), &none)) {
        Some(ErrorCode::ForgeBuildFailure(m)) => assert_eq!(m, "b"),
        other => panic!("{:?}", other),
    }
    match error_of(&failure(Stage::TestRunFailed, "t".to_string(), &none)) {
        Some(ErrorCode::ForgeTestFailure(m)) => assert_eq!(m, "t"),
        other => panic!("{:?}", other),
    }
    assert!(matches!(
        error_of(&failure(Stage::MalformedTestOutput, String::new(), &none)),
        Some(ErrorCode::EmptyFile)
    ));
    assert!(matches!(error_of(&failure(Stage::NoFiles, String::new(), &none)), Some(ErrorCode::EmptyFile)));
    match read_dir_error("denied") {
        ErrorCode::ReadDirErr(m) => assert_eq!(m, "Read directory error(denied)"),
        other => panic!("{:?}", other),
    }
}

#[test]
fn published_stage_is_that_of_the_report() {
    let slot = slot();
    let state = run_job_until_build(ONE_FILE);
    let build = ToolRun::Finished { stdout: String::new(), stderr: "e".to_string() };
    let (state, _) = step(&slot, state, WorkerEvent::ToolFinished(build));
    let (_, action) = step(&slot, state, WorkerEvent::Tick);
    assert!(matches!(action, WorkerAction::Publish { stage: Stage::CompileFailed, .. }));
}

#[test]
fn paths_that_step_up_do_not_stay_below() {
    for path in ["a", "a/b.sol", "a..b", "..a", "a..", "a/..b/c", "./a", "", "/a", "a//b", "...", "a/.../b"] {
        assert!(path_stays_below(path), "{:?}", path);
    }
    for path in ["..", "../a", "a/..", "a/../b", "/..", "../..", "a/b/../../../c", "//.."] {
        assert!(!path_stays_below(path), "{:?}", path);
    }
}

#[test]
fn job_that_leaves_the_workspace_is_refused() {
    let job = |q: &str, path: &str| JobMessage {
        question_no: q.to_string(),
        solc_version: "0.8.20".to_string(),
        judge_job_id: "j".to_string(),
        job_key: "k".to_string(),
        path_with_content: vec![
            PathWithContent { path: "test/T.t.sol".to_string(), content: String::new() },
            PathWithContent { path: path.to_string(), content: String::new() },
        ],
    };
    for (q, path) in [("q1", "../../04/q1/test/T.t.sol"), ("q1", "a/../../x"), ("../04", "a"), ("..", "a")] {
        match create_files_as_job_message(&job(q, path), 3, "w") {
            Err(ErrorCode::DataError(m)) => assert_eq!(m, "Data err(path leaves the workspace)"),
            other => panic!("{:?}", other),
        }
    }
    assert_eq!(create_files_as_job_message(&job("q1", "a/b"), 3, "w").unwrap().len(), 2);
}

#[test]
fn job_that_leaves_the_workspace_is_dropped() {
    let slot = slot();
    let (state, _) = step(&slot, WorkerState::Idle, popped("{\"path\":\"../../04/q1/test/T.t.sol\",\"content\":\"x\"}"));
    let (state, action) = step(&slot, state, WorkerEvent::Tick);
    assert!(matches!(state, WorkerState::Idle));
    assert!(matches!(action, WorkerAction::Pop { .. }));
}
