//! The caller's side: the job message it submits, the bounded wait for the
//! response, and the document it ends with.

use vstd::prelude::*;
use vstd::string::*;
use crate::handshake::{HandshakeModel, Step};
use crate::job::{
    derive_job_key, job_document, job_key_of, job_to_json, JobMessage, JobModel, PathWithContent,
};
use crate::json::{json_parsed, json_text, lemma_json_view, member_views, Json, JsonModel, Member};
use crate::number::decimal;
use crate::views::views;

verus! {

/// What went wrong on the caller's side.
#[derive(Debug)]
pub enum ErrorCode {
    /// The broker's address was refused; the text says why.
    RedisInitErr(String),
    /// The broker could not be reached; the text says why.
    RedisConnectErr(String),
    /// The directory to submit does not exist.
    DirectoryNotFound(String),
    /// No response came in time.
    ProcessTimeout,
    /// No response is there yet.
    ProcessNotFinished,
}

/// The code of the document for a wait that ran out.
pub const TIMEOUT_CODE: i64 = -2;

/// The code of the document for a directory that does not exist.
pub const PATH_MISSING_CODE: i64 = -3;

/// The code of the document for a response that is no JSON.
pub const BAD_RESPONSE_CODE: i64 = -1;

/// How long a caller sleeps between two polls, in milliseconds, by default.
pub const DEFAULT_POLL_INTERVAL_MS: u64 = 100;

/// The job that a caller submits for a question set: its files under the
/// handshake key derived from the question set.
pub open spec fn submitted_job(
    files: Seq<(Seq<char>, Seq<char>)>,
    solc_version: Seq<char>,
    question_no: Seq<char>,
    job_id: Seq<char>,
) -> JobModel {
    JobModel {
        question_no,
        solc_version,
        judge_job_id: job_id,
        job_key: job_key_of(question_no),
        path_with_content: files,
    }
}

/// Makes the job message for the files found under the directory `p`, as
/// the text to push on the work list. `found` holds the files, or nothing
/// where the directory does not exist, which is an error.
pub fn read_files_to_json(
    p: &str,
    found: Option<Vec<PathWithContent>>,
    solc_version: &str,
    question_no: &str,
    job_id: &str,
) -> (r: Result<String, ErrorCode>)
    ensures
        match found {
            Some(files) => r matches Ok(text) && text@ == json_text(
                job_document(submitted_job(views(files@), solc_version@, question_no@, job_id@)),
            ),
            None => r matches Err(ErrorCode::DirectoryNotFound(d)) && d@ == p@,
        },
{
    match found {
        Some(files) => {
            let job = JobMessage {
                question_no: String::from_str(question_no),
                solc_version: String::from_str(solc_version),
                judge_job_id: String::from_str(job_id),
                job_key: derive_job_key(question_no),
                path_with_content: files,
            };
            Ok(job_to_json(&job).to_text())
        },
        None => Err(ErrorCode::DirectoryNotFound(String::from_str(p))),
    }
}

/// What the collect script returned, as a result: the response, or the
/// error that says that none is there yet.
pub fn write_response_if_request_exist(collected: Option<String>) -> (r: Result<String, ErrorCode>)
    ensures
        match collected {
            Some(s) => r == Ok::<String, ErrorCode>(s),
            None => r matches Err(ErrorCode::ProcessNotFinished),
        },
{
    match collected {
        Some(s) => Ok(s),
        None => Err(ErrorCode::ProcessNotFinished),
    }
}

/// Where a caller stands after a poll.
#[derive(Debug)]
pub enum Waiting {
    /// No response yet, and the deadline has not passed: poll again.
    Polling,
    /// The response came.
    Delivered(String),
    /// The deadline passed; the request key is to be deleted.
    TimedOut,
}

/// The mathematical value of a [`Waiting`].
pub enum WaitingModel {
    Polling,
    Delivered(Seq<char>),
    TimedOut,
}

impl View for Waiting {
    type V = WaitingModel;

    open spec fn view(&self) -> WaitingModel {
        match self {
            Waiting::Polling => WaitingModel::Polling,
            Waiting::Delivered(s) => WaitingModel::Delivered(s@),
            Waiting::TimedOut => WaitingModel::TimedOut,
        }
    }
}

/// What was polled, as an optional text.
pub open spec fn polled_text(polled: Result<String, ErrorCode>) -> Option<Seq<char>> {
    match polled {
        Ok(s) => Some(s@),
        Err(_) => None,
    }
}

/// Where a caller stands after a poll that returned `polled`: a response
/// that is not empty ends the wait; without one the wait goes on until the
/// deadline has passed, and nothing else ends it.
pub open spec fn after_poll_of(polled: Option<Seq<char>>, deadline_passed: bool) -> WaitingModel {
    match polled {
        Some(response) if response.len() > 0 => WaitingModel::Delivered(response),
        _ => if deadline_passed {
            WaitingModel::TimedOut
        } else {
            WaitingModel::Polling
        },
    }
}

/// Decides where a caller stands after a poll.
pub fn after_poll(polled: Result<String, ErrorCode>, deadline_passed: bool) -> (w: Waiting)
    ensures
        w@ == after_poll_of(polled_text(polled), deadline_passed),
{
    match polled {
        Ok(response) => {
            if response.as_str().unicode_len() > 0 {
                return Waiting::Delivered(response);
            }
        },
        Err(_) => {},
    }
    if deadline_passed {
        Waiting::TimedOut
    } else {
        Waiting::Polling
    }
}

/// How a wait ended: with the response, or without one; `None` while it
/// goes on.
pub open spec fn wait_result(w: WaitingModel) -> Option<Result<Seq<char>, ()>> {
    match w {
        WaitingModel::Polling => None,
        WaitingModel::Delivered(response) => Some(Ok(response)),
        WaitingModel::TimedOut => Some(Err(())),
    }
}

impl Waiting {
    /// How the wait ended: with the response, or with the error of a wait
    /// that ran out; `None` while it goes on.
    pub fn outcome(self) -> (r: Option<Result<String, ErrorCode>>)
        ensures
            match r {
                None => wait_result(self@) is None,
                Some(Ok(response)) => wait_result(self@) == Some(Ok::<Seq<char>, ()>(response@)),
                Some(Err(e)) => wait_result(self@) == Some(Err::<Seq<char>, ()>(())) && e
                    is ProcessTimeout,
            },
    {
        match self {
            Waiting::Polling => None,
            Waiting::Delivered(response) => Some(Ok(response)),
            Waiting::TimedOut => Some(Err(ErrorCode::ProcessTimeout)),
        }
    }
}

/// Where a caller stands in its handshake.
#[derive(Debug, Clone, Copy, PartialEq, Eq, Structural)]
pub enum CallerState {
    /// Nothing is done yet.
    Start,
    /// The request is being marked as outstanding.
    Marking,
    /// The job is being pushed on the work list.
    Pushing,
    /// The response is being polled for.
    Polling,
    /// The caller sleeps before it polls again.
    Sleeping,
    /// The caller has its outcome.
    Finished,
}

/// What happened outside since the caller's last step.
#[derive(Debug)]
pub enum CallerEvent {
    /// What the last step asked for is done.
    Done,
    /// The poll returned this.
    Collected(Result<String, ErrorCode>),
    /// The sleep is over; the deadline has passed meanwhile, or not.
    Woke { deadline_passed: bool },
}

/// What a caller is to do outside before its next step.
#[derive(Debug)]
pub enum CallerAction {
    /// Set the request key to the empty marker.
    Mark,
    /// Push the job message on the work list.
    Push,
    /// Run the collect script on the two keys.
    Collect,
    /// Sleep so many milliseconds, but not beyond the deadline.
    Sleep { milliseconds: u64 },
    /// Delete the request key and end with the outcome of a wait that ran
    /// out.
    GiveUp,
    /// End with this response.
    Report(String),
    /// Nothing: the caller has ended.
    Rest,
}

/// The mathematical value of a [`CallerAction`].
pub enum CallerActionModel {
    Mark,
    Push,
    Collect,
    Sleep { milliseconds: nat },
    GiveUp,
    Report(Seq<char>),
    Rest,
}

impl View for CallerAction {
    type V = CallerActionModel;

    open spec fn view(&self) -> CallerActionModel {
        match self {
            CallerAction::Mark => CallerActionModel::Mark,
            CallerAction::Push => CallerActionModel::Push,
            CallerAction::Collect => CallerActionModel::Collect,
            CallerAction::Sleep { milliseconds } => CallerActionModel::Sleep {
                milliseconds: *milliseconds as nat,
            },
            CallerAction::GiveUp => CallerActionModel::GiveUp,
            CallerAction::Report(response) => CallerActionModel::Report(response@),
            CallerAction::Rest => CallerActionModel::Rest,
        }
    }
}

/// How a caller waits: how long it sleeps between two polls. How long it
/// waits in all is the deadline's to say, and nothing else's.
#[derive(Debug, Clone, Copy, PartialEq, Eq, Structural)]
pub struct WaitPolicy {
    pub poll_interval_ms: u64,
}

impl WaitPolicy {
    /// A poll every tenth of a second.
    pub fn standard() -> (policy: WaitPolicy)
        ensures
            policy == (WaitPolicy { poll_interval_ms: DEFAULT_POLL_INTERVAL_MS }),
    {
        WaitPolicy { poll_interval_ms: DEFAULT_POLL_INTERVAL_MS }
    }
}

/// The response that an event brings: what a poll collected, where that is
/// not empty.
pub open spec fn response_in(event: CallerEvent) -> Option<Seq<char>> {
    match event {
        CallerEvent::Collected(polled) => match polled_text(polled) {
            Some(response) if response.len() > 0 => Some(response),
            _ => None,
        },
        _ => None,
    }
}

/// Whether an event says that the deadline has passed.
pub open spec fn deadline_in(event: CallerEvent) -> bool {
    match event {
        CallerEvent::Woke { deadline_passed } => deadline_passed,
        _ => false,
    }
}

/// One step of a caller: the request is marked as outstanding, then the job
/// is pushed, then the response is polled for, with a sleep after each poll
/// that brought none. A response ends the wait; so does a sleep over which
/// the deadline passed; nothing else does.
pub open spec fn caller_step_of(policy: WaitPolicy, state: CallerState, event: CallerEvent) -> (
    CallerState,
    CallerActionModel,
) {
    match state {
        CallerState::Start => (CallerState::Marking, CallerActionModel::Mark),
        CallerState::Marking => (CallerState::Pushing, CallerActionModel::Push),
        CallerState::Pushing => (CallerState::Polling, CallerActionModel::Collect),
        CallerState::Polling => match response_in(event) {
            Some(response) => (CallerState::Finished, CallerActionModel::Report(response)),
            None => (
                CallerState::Sleeping,
                CallerActionModel::Sleep { milliseconds: policy.poll_interval_ms as nat },
            ),
        },
        CallerState::Sleeping => if deadline_in(event) {
            (CallerState::Finished, CallerActionModel::GiveUp)
        } else {
            (CallerState::Polling, CallerActionModel::Collect)
        },
        CallerState::Finished => (CallerState::Finished, CallerActionModel::Rest),
    }
}

/// Takes one step of a caller.
pub fn caller_step(policy: &WaitPolicy, state: CallerState, event: CallerEvent) -> (r: (
    CallerState,
    CallerAction,
))
    ensures
        (r.0, r.1@) == caller_step_of(*policy, state, event),
{
    match state {
        CallerState::Start => (CallerState::Marking, CallerAction::Mark),
        CallerState::Marking => (CallerState::Pushing, CallerAction::Push),
        CallerState::Pushing => (CallerState::Polling, CallerAction::Collect),
        CallerState::Polling => {
            let waiting = match event {
                CallerEvent::Collected(polled) => after_poll(polled, false),
                _ => Waiting::Polling,
            };
            match waiting {
                Waiting::Delivered(response) => (CallerState::Finished, CallerAction::Report(response)),
                _ => (
                    CallerState::Sleeping,
                    CallerAction::Sleep { milliseconds: policy.poll_interval_ms },
                ),
            }
        },
        CallerState::Sleeping => {
            let deadline_passed = match event {
                CallerEvent::Woke { deadline_passed } => deadline_passed,
                _ => false,
            };
            match after_poll(Err(ErrorCode::ProcessNotFinished), deadline_passed) {
                Waiting::TimedOut => (CallerState::Finished, CallerAction::GiveUp),
                _ => (CallerState::Polling, CallerAction::Collect),
            }
        },
        CallerState::Finished => (CallerState::Finished, CallerAction::Rest),
    }
}

/// The step that a caller's action is on the pair of keys, if it is one.
pub open spec fn step_on_keys(action: CallerActionModel) -> Option<Step> {
    match action {
        CallerActionModel::Mark => Some(Step::Mark),
        CallerActionModel::Collect => Some(Step::Collect),
        CallerActionModel::GiveUp => Some(Step::Abandon),
        _ => None,
    }
}

/// The wait is bounded by the deadline and by nothing else: a caller gives
/// up exactly when a sleep ends with the deadline passed, and a poll that
/// brought no response always leads to a sleep and to another poll.
pub proof fn lemma_deadline_alone_ends_the_wait(
    policy: WaitPolicy,
    state: CallerState,
    event: CallerEvent,
)
    ensures
        caller_step_of(policy, state, event).1 is GiveUp <==> state is Sleeping && event
            == (CallerEvent::Woke { deadline_passed: true }),
        state is Polling && response_in(event) is None ==> caller_step_of(policy, state, event)
            == (
            CallerState::Sleeping,
            CallerActionModel::Sleep { milliseconds: policy.poll_interval_ms as nat },
        ),
        state is Sleeping && !deadline_in(event) ==> caller_step_of(policy, state, event) == (
            CallerState::Polling,
            CallerActionModel::Collect,
        ),
{
}

/// Where a caller stands after a run of events.
pub open spec fn caller_state_after(
    policy: WaitPolicy,
    state: CallerState,
    events: Seq<CallerEvent>,
) -> CallerState
    decreases events.len(),
{
    if events.len() == 0 {
        state
    } else {
        caller_step_of(
            policy,
            caller_state_after(policy, state, events.drop_last()),
            events.last(),
        ).0
    }
}

/// However many polls bring nothing, a caller that polls goes on polling
/// and sleeping as long as no sleep ends with the deadline passed.
pub proof fn lemma_wait_goes_on_until_the_deadline(policy: WaitPolicy, events: Seq<CallerEvent>)
    requires
        forall|i: int|
            0 <= i < events.len() ==> response_in(#[trigger] events[i]) is None && !deadline_in(
                events[i],
            ),
    ensures
        caller_state_after(policy, CallerState::Polling, events) is Polling || caller_state_after(
            policy,
            CallerState::Polling,
            events,
        ) is Sleeping,
    decreases events.len(),
{
    if events.len() > 0 {
        assert forall|i: int| 0 <= i < events.drop_last().len() implies response_in(
            #[trigger] events.drop_last()[i],
        ) is None && !deadline_in(events.drop_last()[i]) by {
            assert(events.drop_last()[i] == events[i]);
        }
        lemma_wait_goes_on_until_the_deadline(policy, events.drop_last());
        assert(response_in(events[events.len() - 1]) is None);
    }
}

/// A response that is delivered before the caller gives up is what the
/// caller ends with, however many polls went before: a poll that collects a
/// response that is not empty ends the wait with that response.
pub proof fn lemma_delivered_response_is_reported(
    policy: WaitPolicy,
    polled: Result<String, ErrorCode>,
)
    requires
        polled matches Ok(response) && response@.len() > 0,
    ensures
        caller_step_of(policy, CallerState::Polling, CallerEvent::Collected(polled)) == (
            CallerState::Finished,
            CallerActionModel::Report(polled->Ok_0@),
        ),
{
}

/// Once a caller has its outcome it does nothing more.
pub proof fn lemma_finished_caller_rests(policy: WaitPolicy, event: CallerEvent)
    ensures
        caller_step_of(policy, CallerState::Finished, event) == (
            CallerState::Finished,
            CallerActionModel::Rest,
        ),
{
}

/// Timeout discard: where a caller's step ends the wait without a response,
/// the caller gives the request up and ends with the document for a
/// timeout, whose code is -2; what a worker delivers after that is refused
/// and changes nothing, whatever the pair of keys held.
pub proof fn lemma_timeout_discards_late_delivery(
    policy: WaitPolicy,
    state: CallerState,
    event: CallerEvent,
    h: HandshakeModel,
    job_id: Seq<char>,
    cost_time: Seq<char>,
    payload: Seq<char>,
)
    requires
        caller_step_of(policy, state, event).1 is GiveUp,
    ensures
        caller_step_of(policy, state, event).0 is Finished,
        step_on_keys(caller_step_of(policy, state, event).1) == Some(Step::Abandon),
        final_document(None, job_id, cost_time) == timeout_document(job_id).with_member(
            "costTime"@,
            JsonModel::Text(cost_time),
        ),
        timeout_document(job_id)->Object_0[1] == ("code"@, JsonModel::Number(decimal(-2))),
        !h.after(Step::Abandon).delivers(),
        h.after(Step::Abandon).after(Step::Deliver(payload)) == h.after(Step::Abandon),
{
}

/// A document that the caller itself makes: a headline, a code, a message
/// and the caller's label of the job.
pub open spec fn caller_document(
    info: Seq<char>,
    code: int,
    msg: Seq<char>,
    job_id: Seq<char>,
) -> JsonModel {
    JsonModel::Object(
        seq![
            ("info"@, JsonModel::Text(info)),
            ("code"@, JsonModel::Number(decimal(code))),
            ("msg"@, JsonModel::Text(msg)),
            ("jobId"@, JsonModel::Text(job_id)),
        ],
    )
}

/// The document for a wait that ran out.
pub open spec fn timeout_document(job_id: Seq<char>) -> JsonModel {
    caller_document("Timeout"@, TIMEOUT_CODE as int, "Timeout"@, job_id)
}

/// The document for a directory that does not exist.
pub open spec fn path_missing_document(job_id: Seq<char>) -> JsonModel {
    caller_document("Failed"@, PATH_MISSING_CODE as int, "Path not exist"@, job_id)
}

/// The document for a response that is no JSON.
pub open spec fn bad_response_document(job_id: Seq<char>) -> JsonModel {
    caller_document("Failed"@, BAD_RESPONSE_CODE as int, "Response not json"@, job_id)
}

/// The document a caller ends with: the report that was delivered, or the
/// document for a wait that ran out, with the time that the wait took.
pub open spec fn final_document(
    delivered: Option<Seq<char>>,
    job_id: Seq<char>,
    cost_time: Seq<char>,
) -> JsonModel {
    (match delivered {
        Some(response) => match json_parsed(response) {
            Ok(report) => report,
            Err(_) => bad_response_document(job_id),
        },
        None => timeout_document(job_id),
    }).with_member("costTime"@, JsonModel::Text(cost_time))
}

/// Makes a document of the caller's own.
pub fn make_caller_document(info: &str, code: i64, msg: &str, job_id: &str) -> (doc: Json)
    ensures
        doc@ == caller_document(info@, code as int, msg@, job_id@),
{
    let mut members: Vec<Member> = Vec::new();
    members.push(Member { name: String::from_str("info"), value: Json::text(info) });
    members.push(Member { name: String::from_str("code"), value: Json::integer(code as i128) });
    members.push(Member { name: String::from_str("msg"), value: Json::text(msg) });
    members.push(Member { name: String::from_str("jobId"), value: Json::text(job_id) });
    let doc = Json::Object(members);
    proof {
        lemma_json_view(doc);
        assert(member_views(members@) =~= caller_document(info@, code as int, msg@, job_id@)->Object_0);
    }
    doc
}

/// Makes the document for a directory that does not exist.
pub fn make_path_missing_document(job_id: &str) -> (doc: Json)
    ensures
        doc@ == path_missing_document(job_id@),
{
    make_caller_document("Failed", PATH_MISSING_CODE, "Path not exist", job_id)
}

/// Makes the document a caller ends with. `delivered` is the response that
/// came, or nothing where the wait ran out; `cost_time` says how long the
/// wait took.
pub fn make_final_document(delivered: Option<String>, job_id: &str, cost_time: &str) -> (doc: Json)
    ensures
        doc@ == final_document(
            match delivered {
                Some(s) => Some(s@),
                None => None,
            },
            job_id@,
            cost_time@,
        ),
{
    let report = match delivered {
        Some(response) => match Json::from_text(response.as_str()) {
            Ok(report) => report,
            Err(_) => make_caller_document("Failed", BAD_RESPONSE_CODE, "Response not json", job_id),
        },
        None => make_caller_document("Timeout", TIMEOUT_CODE, "Timeout", job_id),
    };
    report.with_member("costTime", Json::text(cost_time))
}

} // verus!
