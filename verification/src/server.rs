//! The worker's side of the broker: what is popped from the work list, how
//! a job is claimed from it, and the errors of a worker.

use vstd::prelude::*;
use vstd::string::*;
use crate::job::{job_of, read_job, JobMessage, JobModel};
use crate::json::{json_parsed, Json};
use crate::report::{Report, ReportModel, Stage};

verus! {

/// What went wrong in a worker.
#[derive(Debug)]
pub enum ErrorCode {
    /// The broker could not be reached.
    RedisConnectErr(String),
    /// What was popped is no list of a name and an element, or the element
    /// is no string.
    DataError(String),
    /// A value of the broker is no string.
    DataNotString(String),
    /// What was popped holds no job message.
    DataNotJson(String),
    /// The work list was empty.
    NoNewMessage,
    /// A directory could not be read.
    ReadDirErr(String),
    /// The build could not be run.
    ForgeBuildFailure(String),
    /// The compiler refused the sources.
    ForgeCompileFailure(String),
    /// The test runner could not be run.
    ForgeTestFailure(String),
    /// A file that should hold JSON holds none.
    ResultJsonReadFailure(String),
    /// There are no files, or no test report to score them by.
    EmptyFile,
}

impl ErrorCode {
    /// The message of the error.
    pub open spec fn message(self) -> Seq<char> {
        match self {
            ErrorCode::RedisConnectErr(s) => "Redis connect exception: "@ + s@,
            ErrorCode::DataError(s) => "Data err "@ + s@,
            ErrorCode::DataNotJson(s) => "Data not json "@ + s@,
            ErrorCode::DataNotString(s) => "Data not string type, "@ + s@,
            ErrorCode::NoNewMessage => "No new message."@,
            ErrorCode::ReadDirErr(s) => "Data not string type, "@ + s@,
            ErrorCode::ForgeBuildFailure(s) => s@,
            ErrorCode::ForgeTestFailure(s) => s@,
            ErrorCode::ForgeCompileFailure(s) => s@,
            ErrorCode::ResultJsonReadFailure(s) => s@,
            ErrorCode::EmptyFile => "Empty file"@,
        }
    }

    /// The message of the error.
    pub fn get_err_msg(&self) -> (msg: String)
        ensures
            msg@ == self.message(),
    {
        match self {
            ErrorCode::RedisConnectErr(err) => String::from_str("Redis connect exception: ").concat(
                err.as_str(),
            ),
            ErrorCode::DataError(err) => String::from_str("Data err ").concat(err.as_str()),
            ErrorCode::DataNotJson(err) => String::from_str("Data not json ").concat(err.as_str()),
            ErrorCode::DataNotString(data) => String::from_str("Data not string type, ").concat(
                data.as_str(),
            ),
            ErrorCode::NoNewMessage => String::from_str("No new message."),
            ErrorCode::ReadDirErr(data) => String::from_str("Data not string type, ").concat(
                data.as_str(),
            ),
            ErrorCode::ForgeBuildFailure(data) => data.clone(),
            ErrorCode::ForgeTestFailure(data) => data.clone(),
            ErrorCode::ForgeCompileFailure(data) => data.clone(),
            ErrorCode::ResultJsonReadFailure(data) => data.clone(),
            ErrorCode::EmptyFile => String::from_str("Empty file"),
        }
    }
}

/// Whether an error is the one that a report stands for: a report of a job
/// that ran to the end stands for none; one of a refused build, of a build or
/// a test run that could not be made stands for the error of that stage with
/// the report's message; one without files or without a test report that can
/// be read stands for the error of an empty file.
pub open spec fn stands_for(report: ReportModel, e: Option<ErrorCode>) -> bool {
    match report.stage {
        Stage::Complete => e is None,
        Stage::CompileFailed => e matches Some(ErrorCode::ForgeCompileFailure(m)) && m@
            == report.msg,
        Stage::BuildFailed => e matches Some(ErrorCode::ForgeBuildFailure(m)) && m@ == report.msg,
        Stage::TestRunFailed => e matches Some(ErrorCode::ForgeTestFailure(m)) && m@ == report.msg,
        Stage::MalformedTestOutput => e matches Some(ErrorCode::EmptyFile),
        Stage::NoFiles => e matches Some(ErrorCode::EmptyFile),
    }
}

/// The error that a report stands for.
pub fn error_of(report: &Report) -> (e: Option<ErrorCode>)
    ensures
        stands_for(report@, e),
{
    match report.stage {
        Stage::Complete => None,
        Stage::CompileFailed => Some(ErrorCode::ForgeCompileFailure(report.msg.clone())),
        Stage::BuildFailed => Some(ErrorCode::ForgeBuildFailure(report.msg.clone())),
        Stage::TestRunFailed => Some(ErrorCode::ForgeTestFailure(report.msg.clone())),
        Stage::MalformedTestOutput => Some(ErrorCode::EmptyFile),
        Stage::NoFiles => Some(ErrorCode::EmptyFile),
    }
}

/// The error of a directory that cannot be read, which `why` explains.
pub fn read_dir_error(why: &str) -> (e: ErrorCode)
    ensures
        e matches ErrorCode::ReadDirErr(m) && m@ == "Read directory error("@ + why@ + ")"@,
{
    ErrorCode::ReadDirErr(String::from_str("Read directory error(").concat(why).concat(")"))
}

/// An error message paired with the numeric code a report carries for it.
#[derive(Debug)]
pub struct MyError {
    pub err_msg: String,
    pub err_code: i8,
}

impl MyError {
    /// Builds an error from a message and its code.
    pub fn new(_err: &str, _err_code: i8) -> (e: MyError)
        ensures
            e.err_msg@ == _err@,
            e.err_code == _err_code,
    {
        MyError { err_msg: String::from_str(_err), err_code: _err_code }
    }
}

/// One element of a list that the broker returned.
#[derive(Debug)]
pub enum BrokerItem {
    /// A string of bytes.
    Data(Vec<u8>),
    /// Anything else, by its description.
    Other(String),
}

/// What the broker returned for a pop from the work list.
#[derive(Debug)]
pub enum BrokerValue {
    /// Nothing: the list stayed empty until the wait ran out.
    Nil,
    /// A string of bytes.
    Data(Vec<u8>),
    /// A list: for a pop, the list's name and the element popped.
    Bulk(Vec<BrokerItem>),
    /// Anything else, by its description.
    Other(String),
}

/// The text that `String::from_utf8_lossy` makes of bytes.
pub uninterp spec fn utf8_lossy(bytes: Seq<u8>) -> Seq<char>;

/// Calls `String::from_utf8_lossy`: the bytes as text, a replacement
/// character standing for what is no UTF-8.
#[verifier::external_body]
fn from_utf8_lossy(bytes: &Vec<u8>) -> (s: String)
    ensures
        s@ == utf8_lossy(bytes@),
{
    String::from_utf8_lossy(bytes).into_owned()
}

/// The text of a broker item: that of its bytes, or the error that says what
/// the item is instead.
pub fn get_value_str(v: &BrokerItem) -> (r: Result<String, ErrorCode>)
    ensures
        match *v {
            BrokerItem::Data(bytes) => r matches Ok(s) && s@ == utf8_lossy(bytes@),
            BrokerItem::Other(description) => r matches Err(ErrorCode::DataNotString(d)) && d@
                == description@,
        },
{
    match v {
        BrokerItem::Data(bytes) => Ok(from_utf8_lossy(bytes)),
        BrokerItem::Other(description) => Err(ErrorCode::DataNotString(description.clone())),
    }
}

/// What claiming a job from a popped value ends in.
pub enum Claim {
    /// The value held this job.
    Job(JobModel),
    /// The list was empty.
    Nothing,
    /// The value was no list of a name and an element.
    Unknown,
    /// The element was no string; it was what the description says.
    NotString(Seq<char>),
    /// The element was no JSON; the text says why.
    NotJson(Seq<char>),
    /// The element was JSON, but no job message.
    NotJob,
}

/// What claiming a job from a popped payload ends in.
pub open spec fn claim_of_payload(payload: Seq<char>) -> Claim {
    match json_parsed(payload) {
        Ok(doc) => match job_of(doc) {
            Some(job) => Claim::Job(job),
            None => Claim::NotJob,
        },
        Err(why) => Claim::NotJson(why),
    }
}

/// What claiming a job from a popped value ends in: the job is read from the
/// second element of a list, which must be a string that holds a job message
/// as JSON.
pub open spec fn claim_of(rv: BrokerValue) -> Claim {
    match rv {
        BrokerValue::Bulk(items) => if items@.len() < 2 {
            Claim::Unknown
        } else {
            match items@[1] {
                BrokerItem::Data(bytes) => claim_of_payload(utf8_lossy(bytes@)),
                BrokerItem::Other(description) => Claim::NotString(description@),
            }
        },
        BrokerValue::Nil => Claim::Nothing,
        _ => Claim::Unknown,
    }
}

/// Whether a result is what a claim calls for: the job, or the error of the
/// claim's kind with its message.
pub open spec fn answers(r: Result<JobMessage, ErrorCode>, claim: Claim) -> bool {
    match claim {
        Claim::Job(job) => r matches Ok(j) && j@ == job,
        Claim::Nothing => r matches Err(ErrorCode::NoNewMessage),
        Claim::Unknown => r matches Err(ErrorCode::DataError(m)) && m@ == "Data err(Unknown)"@,
        Claim::NotString(description) => r matches Err(ErrorCode::DataError(m)) && m@
            == "Data err("@ + ("Data not string type, "@ + description) + ")"@,
        Claim::NotJson(why) => r matches Err(ErrorCode::DataNotJson(m)) && m@ == "Data err("@
            + why + ")"@,
        Claim::NotJob => r matches Err(ErrorCode::DataNotJson(m)) && m@
            == "Data err(not a job message)"@,
    }
}

/// Reads the job that a popped payload holds.
pub fn get_job_message_by_payload(payload: &str) -> (r: Result<JobMessage, ErrorCode>)
    ensures
        answers(r, claim_of_payload(payload@)),
{
    match Json::from_text(payload) {
        Ok(doc) => match read_job(&doc) {
            Some(job) => Ok(job),
            None => Err(ErrorCode::DataNotJson(String::from_str("Data err(not a job message)"))),
        },
        Err(why) => Err(
            ErrorCode::DataNotJson(String::from_str("Data err(").concat(why.as_str()).concat(")")),
        ),
    }
}

/// Claims the job that a popped value holds.
pub fn get_job_message_by_redis_value(rv: &BrokerValue) -> (r: Result<JobMessage, ErrorCode>)
    ensures
        answers(r, claim_of(*rv)),
{
    match rv {
        BrokerValue::Bulk(items) => {
            if items.len() < 2 {
                return Err(ErrorCode::DataError(String::from_str("Data err(Unknown)")));
            }
            match get_value_str(&items[1]) {
                Ok(payload) => get_job_message_by_payload(payload.as_str()),
                Err(inner) => {
                    let msg = String::from_str("Data err(").concat(
                        inner.get_err_msg().as_str(),
                    ).concat(")");
                    Err(ErrorCode::DataError(msg))
                },
            }
        },
        BrokerValue::Nil => Err(ErrorCode::NoNewMessage),
        _ => Err(ErrorCode::DataError(String::from_str("Data err(Unknown)"))),
    }
}

} // verus!
