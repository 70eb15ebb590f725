//! The execution loop of one worker slot, as a state machine: each step
//! takes what happened outside and says what to do next. The loop has no
//! terminal state; whatever goes wrong with a job, the slot returns to
//! `Idle`.

use vstd::prelude::*;
use vstd::string::*;
use crate::handshake::{request_key, request_key_of, response_key, response_key_of};
use crate::job::{JobMessage, JobModel};
use crate::json::json_text;
use crate::report::{
    no_files, no_files_report, render_report, report_document, Report, ReportModel, Stage,
};
use crate::scanner::{scan_sources, scanned_all};
use crate::scoring::{total_score, QuestionCase, QuestionModel};
use crate::server::{claim_of, get_job_message_by_redis_value, BrokerValue, Claim, ErrorCode};
use crate::toolchain::{
    build_arguments, build_arguments_of, build_verdict, judge_build, judge_test, test_arguments,
    test_arguments_of, test_verdict, ToolRun, ToolRunModel,
};
use crate::views::{texts, views};
use crate::workspace::{
    create_files_as_job_message, job_stays_below, join, joined, lemma_planned_path_lies_below_slot,
    lies_below, planned_files, slot_directory, workspace_root, PlannedFile, Workspace,
};

verus! {

/// How long a slot sleeps before it pops, in milliseconds.
pub const POP_DELAY_MS: u64 = 20;

/// How long a pop waits for a job, in seconds.
pub const POP_TIMEOUT_SECONDS: u64 = 1;

/// The name of the build's cache file within the cache directory.
pub const CACHE_FILE_NAME: &'static str = "solidity-files-cache.json";

/// The directory, shared by all slots, that holds the artifacts built ahead
/// for each compiler version.
pub const SHARED_ARTIFACTS: &'static str = "out";

/// One worker slot: its index and the directory under which it works.
#[derive(Debug)]
pub struct WorkerSlot {
    pub slot_index: u8,
    pub worker_dir: String,
}

/// What the scoring stage works on.
#[derive(Debug)]
pub enum Verdict {
    /// The build ended the job with this report.
    Stopped(Report),
    /// The test run ended like this; the questions are yet to be scored.
    Tested(ToolRun),
}

/// The mathematical value of a [`Verdict`].
pub enum VerdictModel {
    Stopped(ReportModel),
    Tested(ToolRunModel),
}

impl View for Verdict {
    type V = VerdictModel;

    open spec fn view(&self) -> VerdictModel {
        match self {
            Verdict::Stopped(r) => VerdictModel::Stopped(r@),
            Verdict::Tested(run) => VerdictModel::Tested(run@),
        }
    }
}

/// Where a slot stands.
#[derive(Debug)]
pub enum WorkerState {
    /// Waiting for a job.
    Idle,
    /// Something was popped; a job is to be read from it.
    Claiming(BrokerValue),
    /// The files of the job are being written.
    Materializing(JobMessage),
    /// The toolchain runs: the build, or the tests once the build passed.
    Building { job: JobMessage, questions: Vec<QuestionCase>, testing: bool },
    /// The toolchain is done; the report is to be made.
    Scoring { job: JobMessage, questions: Vec<QuestionCase>, verdict: Verdict },
    /// The report is on its way to the caller.
    Replying { job_key: String, payload: String },
}

/// The mathematical value of a [`WorkerState`].
pub enum WorkerStateModel {
    Idle,
    Claiming(BrokerValue),
    Materializing(JobModel),
    Building { job: JobModel, questions: Seq<QuestionModel>, testing: bool },
    Scoring { job: JobModel, questions: Seq<QuestionModel>, verdict: VerdictModel },
    Replying { job_key: Seq<char>, payload: Seq<char> },
}

impl View for WorkerState {
    type V = WorkerStateModel;

    open spec fn view(&self) -> WorkerStateModel {
        match self {
            WorkerState::Idle => WorkerStateModel::Idle,
            WorkerState::Claiming(rv) => WorkerStateModel::Claiming(*rv),
            WorkerState::Materializing(job) => WorkerStateModel::Materializing(job@),
            WorkerState::Building { job, questions, testing } => WorkerStateModel::Building {
                job: job@,
                questions: views(questions@),
                testing: *testing,
            },
            WorkerState::Scoring { job, questions, verdict } => WorkerStateModel::Scoring {
                job: job@,
                questions: views(questions@),
                verdict: verdict@,
            },
            WorkerState::Replying { job_key, payload } => WorkerStateModel::Replying {
                job_key: job_key@,
                payload: payload@,
            },
        }
    }
}

/// What happened outside since the last step.
#[derive(Debug)]
pub enum WorkerEvent {
    /// Nothing: the last step asked for no outside work.
    Tick,
    /// The pop returned this value, or failed.
    Popped(Option<BrokerValue>),
    /// The files are written; these are the texts of the test sources.
    Materialized(Vec<String>),
    /// The toolchain ended like this.
    ToolFinished(ToolRun),
    /// The report was handed to the broker, which delivered it or not.
    Delivered(bool),
}

/// How the build's cache is set up on the first use of a workspace with a
/// compiler version. The use is the first where the link is not there yet;
/// then the cache file is made from the template and the link is made.
#[derive(Debug)]
pub struct CacheSetup {
    /// The workspace, to which the cache file's source path is set.
    pub root: String,
    /// The directory of the cache file.
    pub cache_dir: String,
    /// The cache file, made from the template on first use.
    pub cache_file: String,
    /// The directory of the artifacts.
    pub out_dir: String,
    /// The link, within the artifacts, to the artifacts built ahead.
    pub link: String,
    /// The artifacts built ahead for the job's compiler version.
    pub shared: String,
}

/// The mathematical value of a [`CacheSetup`].
pub struct CacheSetupModel {
    pub root: Seq<char>,
    pub cache_dir: Seq<char>,
    pub cache_file: Seq<char>,
    pub out_dir: Seq<char>,
    pub link: Seq<char>,
    pub shared: Seq<char>,
}

impl View for CacheSetup {
    type V = CacheSetupModel;

    open spec fn view(&self) -> CacheSetupModel {
        CacheSetupModel {
            root: self.root@,
            cache_dir: self.cache_dir@,
            cache_file: self.cache_file@,
            out_dir: self.out_dir@,
            link: self.link@,
            shared: self.shared@,
        }
    }
}

/// What a slot is to do outside before its next step.
#[derive(Debug)]
pub enum WorkerAction {
    /// Sleep, then pop from the work list, waiting no longer than said.
    Pop { delay_ms: u64, timeout_seconds: u64 },
    /// Nothing: step again.
    Proceed,
    /// Wipe the output directory, write the files, read the test sources.
    Materialize { files: Vec<PlannedFile>, output_dir: String, test_dir: String },
    /// Set the cache up if this is the first use of the workspace with the
    /// compiler version, then run the build.
    Build { setup: CacheSetup, arguments: Vec<String> },
    /// Run the tests.
    Test { arguments: Vec<String> },
    /// Write the report to the output file, where there is one, and deliver
    /// it if the request is outstanding. `stage` is the stage that the job
    /// reached.
    Publish {
        stage: Stage,
        output_file: Option<String>,
        request_key: String,
        response_key: String,
        payload: String,
    },
}

/// The mathematical value of a [`WorkerAction`].
pub enum WorkerActionModel {
    Pop { delay_ms: nat, timeout_seconds: nat },
    Proceed,
    Materialize {
        files: Seq<(Seq<char>, Seq<char>, Seq<char>)>,
        output_dir: Seq<char>,
        test_dir: Seq<char>,
    },
    Build { setup: CacheSetupModel, arguments: Seq<Seq<char>> },
    Test { arguments: Seq<Seq<char>> },
    Publish {
        stage: Stage,
        output_file: Option<Seq<char>>,
        request_key: Seq<char>,
        response_key: Seq<char>,
        payload: Seq<char>,
    },
}

impl View for WorkerAction {
    type V = WorkerActionModel;

    open spec fn view(&self) -> WorkerActionModel {
        match self {
            WorkerAction::Pop { delay_ms, timeout_seconds } => WorkerActionModel::Pop {
                delay_ms: *delay_ms as nat,
                timeout_seconds: *timeout_seconds as nat,
            },
            WorkerAction::Proceed => WorkerActionModel::Proceed,
            WorkerAction::Materialize { files, output_dir, test_dir } => {
                WorkerActionModel::Materialize {
                    files: views(files@),
                    output_dir: output_dir@,
                    test_dir: test_dir@,
                }
            },
            WorkerAction::Build { setup, arguments } => WorkerActionModel::Build {
                setup: setup@,
                arguments: texts(arguments@),
            },
            WorkerAction::Test { arguments } => WorkerActionModel::Test {
                arguments: texts(arguments@),
            },
            WorkerAction::Publish { stage, output_file, request_key, response_key, payload } => {
                WorkerActionModel::Publish {
                    stage: *stage,
                    output_file: match output_file {
                        Some(f) => Some(f@),
                        None => None,
                    },
                    request_key: request_key@,
                    response_key: response_key@,
                    payload: payload@,
                }
            },
        }
    }
}

/// The slot waits for a job.
pub open spec fn to_idle() -> (WorkerStateModel, WorkerActionModel) {
    (
        WorkerStateModel::Idle,
        WorkerActionModel::Pop {
            delay_ms: POP_DELAY_MS as nat,
            timeout_seconds: POP_TIMEOUT_SECONDS as nat,
        },
    )
}

/// The slot sends a report on its way.
pub open spec fn to_replying(
    job_key: Seq<char>,
    output_file: Option<Seq<char>>,
    report: ReportModel,
) -> (WorkerStateModel, WorkerActionModel) {
    let payload = json_text(report_document(report));
    (
        WorkerStateModel::Replying { job_key, payload },
        WorkerActionModel::Publish {
            stage: report.stage,
            output_file,
            request_key: request_key_of(job_key),
            response_key: response_key_of(job_key),
            payload,
        },
    )
}

/// The cache setup of a workspace for a compiler version.
pub open spec fn cache_setup_of(root: Seq<char>, version: Seq<char>) -> CacheSetupModel {
    CacheSetupModel {
        root,
        cache_dir: joined(root, "cache"@),
        cache_file: joined(joined(root, "cache"@), CACHE_FILE_NAME@),
        out_dir: joined(root, "out"@),
        link: joined(joined(root, "out"@), version),
        shared: joined(SHARED_ARTIFACTS@, version),
    }
}

/// The questions of the test sources; none where they cannot be scanned.
pub open spec fn questions_in(sources: Seq<Seq<char>>) -> Seq<QuestionModel> {
    match scanned_all(sources) {
        Some(found) => found,
        None => Seq::empty(),
    }
}

/// The step of a slot that is claiming a job from a popped value: a job
/// with files goes on to be materialized, one without files is answered at
/// once, and anything else sends the slot back to waiting; so does a job
/// whose paths would leave the slot's workspace, which is dropped as
/// malformed.
pub open spec fn claiming_step(
    worker_dir: Seq<char>,
    slot: nat,
    rv: BrokerValue,
) -> (WorkerStateModel, WorkerActionModel) {
    match claim_of(rv) {
        Claim::Job(job) => if job.path_with_content.len() == 0 {
            to_replying(job.job_key, None, no_files_report())
        } else if !job_stays_below(job) {
            to_idle()
        } else {
            let root = workspace_root(worker_dir, slot, job.question_no);
            (
                WorkerStateModel::Materializing(job),
                WorkerActionModel::Materialize {
                    files: planned_files(root, job.path_with_content),
                    output_dir: joined(root, "output"@),
                    test_dir: joined(root, "test"@),
                },
            )
        },
        _ => to_idle(),
    }
}

/// The step of a slot whose toolchain ended: a build that ended the job
/// leads to scoring with its report, a build that passed leads to the test
/// run, and the test run leads to scoring with its output.
pub open spec fn building_step(
    worker_dir: Seq<char>,
    slot: nat,
    job: JobModel,
    questions: Seq<QuestionModel>,
    testing: bool,
    run: ToolRunModel,
) -> (WorkerStateModel, WorkerActionModel) {
    let root = workspace_root(worker_dir, slot, job.question_no);
    if testing {
        (
            WorkerStateModel::Scoring { job, questions, verdict: VerdictModel::Tested(run) },
            WorkerActionModel::Proceed,
        )
    } else {
        match build_verdict(run, questions) {
            Some(report) => (
                WorkerStateModel::Scoring { job, questions, verdict: VerdictModel::Stopped(report) },
                WorkerActionModel::Proceed,
            ),
            None => (
                WorkerStateModel::Building { job, questions, testing: true },
                WorkerActionModel::Test {
                    arguments: test_arguments_of(
                        root,
                        joined(root, "cache"@),
                        joined(root, "out"@),
                        job.solc_version,
                    ),
                },
            ),
        }
    }
}

/// The report that the scoring stage makes.
pub open spec fn scoring_report(questions: Seq<QuestionModel>, verdict: VerdictModel) -> ReportModel {
    match verdict {
        VerdictModel::Stopped(report) => report,
        VerdictModel::Tested(run) => test_verdict(run, questions),
    }
}

/// One step of a slot: from where it stands and what happened outside to
/// where it stands next and what it is to do. An event that does not belong
/// to the state sends the slot back to waiting.
pub open spec fn step_of(
    worker_dir: Seq<char>,
    slot: nat,
    state: WorkerStateModel,
    event: WorkerEvent,
) -> (WorkerStateModel, WorkerActionModel) {
    match state {
        WorkerStateModel::Idle => match event {
            WorkerEvent::Popped(Some(rv)) => (
                WorkerStateModel::Claiming(rv),
                WorkerActionModel::Proceed,
            ),
            _ => to_idle(),
        },
        WorkerStateModel::Claiming(rv) => claiming_step(worker_dir, slot, rv),
        WorkerStateModel::Materializing(job) => match event {
            WorkerEvent::Materialized(sources) => {
                let root = workspace_root(worker_dir, slot, job.question_no);
                (
                    WorkerStateModel::Building {
                        job,
                        questions: questions_in(texts(sources@)),
                        testing: false,
                    },
                    WorkerActionModel::Build {
                        setup: cache_setup_of(root, job.solc_version),
                        arguments: build_arguments_of(
                            root,
                            joined(root, "cache"@),
                            joined(root, "out"@),
                            job.solc_version,
                        ),
                    },
                )
            },
            _ => to_idle(),
        },
        WorkerStateModel::Building { job, questions, testing } => match event {
            WorkerEvent::ToolFinished(run) => building_step(
                worker_dir,
                slot,
                job,
                questions,
                testing,
                run@,
            ),
            _ => to_idle(),
        },
        WorkerStateModel::Scoring { job, questions, verdict } => to_replying(
            job.job_key,
            Some(
                joined(
                    joined(workspace_root(worker_dir, slot, job.question_no), "output"@),
                    "output.json"@,
                ),
            ),
            scoring_report(questions, verdict),
        ),
        WorkerStateModel::Replying { job_key, payload } => to_idle(),
    }
}

/// The slot waits for a job.
fn idle() -> (r: (WorkerState, WorkerAction))
    ensures
        (r.0@, r.1@) == to_idle(),
{
    (
        WorkerState::Idle,
        WorkerAction::Pop { delay_ms: POP_DELAY_MS, timeout_seconds: POP_TIMEOUT_SECONDS },
    )
}

/// The slot sends a report on its way.
fn reply(job_key: String, output_file: Option<String>, report: &Report) -> (r: (
    WorkerState,
    WorkerAction,
))
    ensures
        (r.0@, r.1@) == to_replying(
            job_key@,
            match output_file {
                Some(f) => Some(f@),
                None => None,
            },
            report@,
        ),
{
    let payload = render_report(report);
    let action = WorkerAction::Publish {
        stage: report.stage,
        output_file,
        request_key: request_key(job_key.as_str()),
        response_key: response_key(job_key.as_str()),
        payload: payload.clone(),
    };
    (WorkerState::Replying { job_key, payload }, action)
}

/// Makes the cache setup of a workspace for a compiler version.
fn cache_setup(ws: &Workspace, version: &str) -> (setup: CacheSetup)
    requires
        ws.cache@ == joined(ws.root@, "cache"@),
        ws.out@ == joined(ws.root@, "out"@),
    ensures
        setup@ == cache_setup_of(ws.root@, version@),
{
    CacheSetup {
        root: ws.root.clone(),
        cache_dir: ws.cache.clone(),
        cache_file: join(ws.cache.as_str(), CACHE_FILE_NAME),
        out_dir: ws.out.clone(),
        link: join(ws.out.as_str(), version),
        shared: join(SHARED_ARTIFACTS, version),
    }
}

/// Takes one step of a slot.
pub fn step(slot: &WorkerSlot, state: WorkerState, event: WorkerEvent) -> (r: (
    WorkerState,
    WorkerAction,
))
    ensures
        (r.0@, r.1@) == step_of(slot.worker_dir@, slot.slot_index as nat, state@, event),
{
    let worker_dir = slot.worker_dir.as_str();
    match state {
        WorkerState::Idle => match event {
            WorkerEvent::Popped(Some(rv)) => (WorkerState::Claiming(rv), WorkerAction::Proceed),
            _ => idle(),
        },
        WorkerState::Claiming(rv) => match get_job_message_by_redis_value(&rv) {
            Ok(job) => match create_files_as_job_message(&job, slot.slot_index, worker_dir) {
                Ok(files) => {
                    let ws = Workspace::locate(worker_dir, slot.slot_index, job.question_no.as_str());
                    (
                        WorkerState::Materializing(job),
                        WorkerAction::Materialize { files, output_dir: ws.output, test_dir: ws.test },
                    )
                },
                Err(ErrorCode::EmptyFile) => {
                    let report = no_files();
                    reply(job.job_key, None, &report)
                },
                Err(_) => idle(),
            },
            Err(_) => idle(),
        },
        WorkerState::Materializing(job) => match event {
            WorkerEvent::Materialized(sources) => {
                let questions = match scan_sources(&sources) {
                    Some(found) => found,
                    None => Vec::new(),
                };
                proof {
                    if scanned_all(texts(sources@)) is None {
                        assert(views(questions@) =~= Seq::empty());
                    }
                }
                let ws = Workspace::locate(worker_dir, slot.slot_index, job.question_no.as_str());
                let action = WorkerAction::Build {
                    setup: cache_setup(&ws, job.solc_version.as_str()),
                    arguments: build_arguments(&ws, job.solc_version.as_str()),
                };
                (WorkerState::Building { job, questions, testing: false }, action)
            },
            _ => idle(),
        },
        WorkerState::Building { job, questions, testing } => match event {
            WorkerEvent::ToolFinished(run) => {
                if testing {
                    (
                        WorkerState::Scoring { job, questions, verdict: Verdict::Tested(run) },
                        WorkerAction::Proceed,
                    )
                } else {
                    match judge_build(&run, &questions) {
                        Some(report) => (
                            WorkerState::Scoring { job, questions, verdict: Verdict::Stopped(report) },
                            WorkerAction::Proceed,
                        ),
                        None => {
                            let ws = Workspace::locate(
                                worker_dir,
                                slot.slot_index,
                                job.question_no.as_str(),
                            );
                            let action = WorkerAction::Test {
                                arguments: test_arguments(&ws, job.solc_version.as_str()),
                            };
                            (WorkerState::Building { job, questions, testing: true }, action)
                        },
                    }
                }
            },
            _ => idle(),
        },
        WorkerState::Scoring { job, questions, verdict } => {
            let ws = Workspace::locate(worker_dir, slot.slot_index, job.question_no.as_str());
            match verdict {
                Verdict::Stopped(report) => reply(job.job_key, Some(ws.output_file), &report),
                Verdict::Tested(run) => {
                    let report = judge_test(&run, &questions);
                    reply(job.job_key, Some(ws.output_file), &report)
                },
            }
        },
        WorkerState::Replying { job_key, payload } => idle(),
    }
}

/// Empty submission: a job without files is answered at once with the
/// report for no files, which carries code 2, no score and no question; no
/// file is written for it, and the step after that finds the slot waiting
/// again. Neither step asks for a build or a test run.
pub proof fn lemma_empty_submission(
    worker_dir: Seq<char>,
    slot: nat,
    rv: BrokerValue,
    job: JobModel,
    first: WorkerEvent,
    second: WorkerEvent,
)
    requires
        claim_of(rv) == Claim::Job(job),
        job.path_with_content.len() == 0,
    ensures
        ({
            let answered = step_of(worker_dir, slot, WorkerStateModel::Claiming(rv), first);
            &&& answered == to_replying(job.job_key, None, no_files_report())
            &&& answered.1 is Publish
            &&& no_files_report().code == 2
            &&& no_files_report().get_score == 0
            &&& no_files_report().total_score == 0
            &&& no_files_report().questions.len() == 0
            &&& step_of(worker_dir, slot, answered.0, second) == to_idle()
        }),
{
    assert(total_score(Seq::<QuestionModel>::empty()) == 0);
}

/// Whether a job may occupy a slot: it has files, and its paths stay below
/// the slot's workspace.
pub open spec fn may_occupy(job: JobModel) -> bool {
    job.path_with_content.len() > 0 && job_stays_below(job)
}

/// Whether the job that a slot is occupied with, if it is occupied, may
/// occupy it.
pub open spec fn occupied_with_files(state: WorkerStateModel) -> bool {
    match state {
        WorkerStateModel::Materializing(job) => may_occupy(job),
        WorkerStateModel::Building { job, questions, testing } => may_occupy(job),
        WorkerStateModel::Scoring { job, questions, verdict } => may_occupy(job),
        _ => true,
    }
}

/// A job without files never occupies a slot, nor does one whose paths leave
/// the slot's workspace: a slot that starts out idle is only ever
/// materializing, building or scoring a job that has files, all of which
/// stay below its workspace.
pub proof fn lemma_occupied_with_files(
    worker_dir: Seq<char>,
    slot: nat,
    state: WorkerStateModel,
    event: WorkerEvent,
)
    requires
        occupied_with_files(state),
    ensures
        occupied_with_files(WorkerStateModel::Idle),
        occupied_with_files(step_of(worker_dir, slot, state, event).0),
{
}

/// Workers stay in their workspaces: every file that a step asks a slot to
/// write lies below the directory of that slot, with no step up to a parent
/// directory on the way.
pub proof fn lemma_written_files_lie_below_slot(
    worker_dir: Seq<char>,
    slot: nat,
    state: WorkerStateModel,
    event: WorkerEvent,
    i: int,
)
    requires
        step_of(worker_dir, slot, state, event).1 matches WorkerActionModel::Materialize {
            files,
            output_dir,
            test_dir,
        } && 0 <= i < files.len(),
    ensures
        step_of(worker_dir, slot, state, event).1 matches WorkerActionModel::Materialize {
            files,
            output_dir,
            test_dir,
        } && lies_below(slot_directory(worker_dir, slot), files[i].0),
{
    match state {
        WorkerStateModel::Claiming(rv) => {
            match claim_of(rv) {
                Claim::Job(job) => {
                    lemma_planned_path_lies_below_slot(
                        worker_dir,
                        slot,
                        job.question_no,
                        job.path_with_content[i].0,
                    );
                },
                _ => {},
            }
        },
        _ => {},
    }
}

/// After a reply the slot waits for the next job, whether the report was
/// delivered or not.
pub proof fn lemma_reply_returns_to_idle(
    worker_dir: Seq<char>,
    slot: nat,
    job_key: Seq<char>,
    payload: Seq<char>,
    event: WorkerEvent,
)
    ensures
        step_of(worker_dir, slot, WorkerStateModel::Replying { job_key, payload }, event)
            == to_idle(),
{
}

/// A build or a test run is asked for only on behalf of a job that has
/// files: the slot is then materializing or building.
pub proof fn lemma_toolchain_runs_for_files_only(
    worker_dir: Seq<char>,
    slot: nat,
    state: WorkerStateModel,
    event: WorkerEvent,
)
    requires
        step_of(worker_dir, slot, state, event).1 is Build || step_of(
            worker_dir,
            slot,
            state,
            event,
        ).1 is Test,
    ensures
        state is Materializing || state is Building,
{
}

} // verus!
