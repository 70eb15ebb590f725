//! The toolchain runner's rules: how the build and the test runner are
//! invoked, and what their output means for the report.

use vstd::prelude::*;
use vstd::string::*;
use crate::json::{json_parsed, lemma_json_view, member_views, Json, JsonModel, Member};
use crate::pattern::{pattern_replaced, replace_all};
use crate::report::{
    failure, failure_report, malformed_output, malformed_output_report, score, scored_report,
    Report, ReportModel, Stage,
};
use crate::scoring::{QuestionCase, QuestionModel, TestOutcome};
use crate::views::{texts, views};
use crate::workspace::Workspace;

verus! {

/// A colour or style sequence of a terminal: escape, `[`, digits and
/// semicolons, `m`.
pub const ANSI_PATTERN: &'static str = r"\x1b\[[\d;]+m";

/// A text without the colour and style sequences of a terminal. Where the
/// pattern for them does not compile the text is left as it is.
pub open spec fn stripped(text: Seq<char>) -> Seq<char> {
    match pattern_replaced(ANSI_PATTERN@, text, ""@) {
        Some(clean) => clean,
        None => text,
    }
}

/// Removes the colour and style sequences of a terminal from a text.
pub fn strip_ansi(text: &str) -> (clean: String)
    ensures
        clean@ == stripped(text@),
{
    match replace_all(ANSI_PATTERN, text, "") {
        Some(clean) => clean,
        None => String::from_str(text),
    }
}

/// The arguments of the build: the sources, the cache, where the artifacts
/// go, and the compiler version.
pub open spec fn build_arguments_of(
    root: Seq<char>,
    cache: Seq<char>,
    out: Seq<char>,
    version: Seq<char>,
) -> Seq<Seq<char>> {
    seq![
        "build"@,
        "--contracts"@,
        root,
        "--cache-path"@,
        cache,
        "--out"@,
        out,
        "--use"@,
        version,
    ]
}

/// The arguments of the test run: those of the build, a report as JSON, no
/// network, and a zero exit status whatever the tests do.
pub open spec fn test_arguments_of(
    root: Seq<char>,
    cache: Seq<char>,
    out: Seq<char>,
    version: Seq<char>,
) -> Seq<Seq<char>> {
    seq![
        "test"@,
        "--contracts"@,
        root,
        "--cache-path"@,
        cache,
        "--out"@,
        out,
        "--json"@,
        "--use"@,
        version,
        "--offline"@,
        "--allow-failure"@,
    ]
}

/// Makes the arguments of the build in a workspace.
pub fn build_arguments(ws: &Workspace, version: &str) -> (args: Vec<String>)
    ensures
        texts(args@) == build_arguments_of(ws.root@, ws.cache@, ws.out@, version@),
{
    let mut args: Vec<String> = Vec::new();
    args.push(String::from_str("build"));
    args.push(String::from_str("--contracts"));
    args.push(ws.root.clone());
    args.push(String::from_str("--cache-path"));
    args.push(ws.cache.clone());
    args.push(String::from_str("--out"));
    args.push(ws.out.clone());
    args.push(String::from_str("--use"));
    args.push(String::from_str(version));
    assert(texts(args@) =~= build_arguments_of(
        ws.root@,
        ws.cache@,
        ws.out@,
        version@,
    ));
    args
}

/// Makes the arguments of the test run in a workspace.
pub fn test_arguments(ws: &Workspace, version: &str) -> (args: Vec<String>)
    ensures
        texts(args@) == test_arguments_of(ws.root@, ws.cache@, ws.out@, version@),
{
    let mut args: Vec<String> = Vec::new();
    args.push(String::from_str("test"));
    args.push(String::from_str("--contracts"));
    args.push(ws.root.clone());
    args.push(String::from_str("--cache-path"));
    args.push(ws.cache.clone());
    args.push(String::from_str("--out"));
    args.push(ws.out.clone());
    args.push(String::from_str("--json"));
    args.push(String::from_str("--use"));
    args.push(String::from_str(version));
    args.push(String::from_str("--offline"));
    args.push(String::from_str("--allow-failure"));
    assert(texts(args@) =~= test_arguments_of(
        ws.root@,
        ws.cache@,
        ws.out@,
        version@,
    ));
    args
}

/// How an invocation of the toolchain ended.
#[derive(Debug)]
pub enum ToolRun {
    /// It could not be run; the text says why.
    Failed(String),
    /// It ran, and wrote this.
    Finished { stdout: String, stderr: String },
}

/// The mathematical value of a [`ToolRun`].
pub enum ToolRunModel {
    Failed(Seq<char>),
    Finished { stdout: Seq<char>, stderr: Seq<char> },
}

impl View for ToolRun {
    type V = ToolRunModel;

    open spec fn view(&self) -> ToolRunModel {
        match self {
            ToolRun::Failed(why) => ToolRunModel::Failed(why@),
            ToolRun::Finished { stdout, stderr } => ToolRunModel::Finished {
                stdout: stdout@,
                stderr: stderr@,
            },
        }
    }
}

/// The report that a build ends the job with, if it does: a build that
/// could not be run, or one that wrote to its error output, which the
/// compiler does when it refuses the sources. The message is what was
/// written, without colour sequences. A silent build ends nothing.
pub open spec fn build_verdict(run: ToolRunModel, qs: Seq<QuestionModel>) -> Option<ReportModel> {
    match run {
        ToolRunModel::Failed(why) => Some(failure_report(Stage::BuildFailed, stripped(why), qs)),
        ToolRunModel::Finished { stdout, stderr } => if stderr.len() > 0 {
            Some(failure_report(Stage::CompileFailed, stripped(stderr), qs))
        } else {
            None
        },
    }
}

/// The view of an optional report.
pub open spec fn opt_report(o: Option<Report>) -> Option<ReportModel> {
    match o {
        Some(r) => Some(r@),
        None => None,
    }
}

/// Judges a build: the report that it ends the job with, or nothing where
/// the test run is to follow.
pub fn judge_build(run: &ToolRun, questions: &Vec<QuestionCase>) -> (r: Option<Report>)
    ensures
        opt_report(r) == build_verdict(run@, views(questions@)),
{
    match run {
        ToolRun::Failed(why) => Some(failure(Stage::BuildFailed, strip_ansi(why.as_str()), questions)),
        ToolRun::Finished { stdout, stderr } => {
            if stderr.as_str().unicode_len() > 0 {
                Some(failure(Stage::CompileFailed, strip_ansi(stderr.as_str()), questions))
            } else {
                None
            }
        },
    }
}

/// The lines that the results of one test contract give: for each test
/// whose `status` is a text, its signature and that status.
pub open spec fn case_outcomes(results: Seq<(Seq<char>, JsonModel)>) -> Seq<(Seq<char>, Seq<char>)>
    decreases results.len(),
{
    if results.len() == 0 {
        Seq::empty()
    } else {
        let earlier = case_outcomes(results.drop_last());
        match results.last().1.member("status"@) {
            Some(JsonModel::Text(status)) => earlier.push((results.last().0, status)),
            _ => earlier,
        }
    }
}

/// The lines that one test contract gives: those of its `test_results`.
pub open spec fn contract_outcomes(contract: JsonModel) -> Seq<(Seq<char>, Seq<char>)> {
    match contract.member("test_results"@) {
        Some(JsonModel::Object(results)) => case_outcomes(results),
        _ => Seq::empty(),
    }
}

/// The lines that a list of test contracts gives, contract after contract.
pub open spec fn contracts_outcomes(contracts: Seq<(Seq<char>, JsonModel)>) -> Seq<
    (Seq<char>, Seq<char>),
>
    decreases contracts.len(),
{
    if contracts.len() == 0 {
        Seq::empty()
    } else {
        contracts_outcomes(contracts.drop_last()) + contract_outcomes(contracts.last().1)
    }
}

/// The lines of the test runner's report: an object of test contracts, each
/// with its `test_results`. Another document gives no lines.
pub open spec fn outcomes_of(doc: JsonModel) -> Seq<(Seq<char>, Seq<char>)> {
    match doc {
        JsonModel::Object(contracts) => contracts_outcomes(contracts),
        _ => Seq::empty(),
    }
}

/// Reads the lines that the results of one test contract give.
pub fn read_case_outcomes(results: &Vec<Member>, outcomes: &mut Vec<TestOutcome>)
    ensures
        views(final(outcomes)@) == views(old(outcomes)@) + case_outcomes(member_views(results@)),
{
    let ghost start = views(outcomes@);
    let mut i: usize = 0;
    proof {
        assert(member_views(results@).subrange(0, 0) =~= Seq::empty());
        assert(start + Seq::empty() =~= start);
    }
    while i < results.len()
        invariant
            i <= results.len(),
            views(outcomes@) == start + case_outcomes(member_views(results@).subrange(0, i as int)),
        decreases results.len() - i,
    {
        let ghost before = member_views(results@).subrange(0, i as int);
        let ghost after = member_views(results@).subrange(0, i as int + 1);
        proof {
            assert(after.drop_last() == before);
            assert(after.last() == (results@[i as int].name@, results@[i as int].value@));
        }
        match results[i].value.get("status") {
            Some(found) => match found {
                Json::Text(status) => {
                    let ghost earlier = views(outcomes@);
                    outcomes.push(
                        TestOutcome { signature: results[i].name.clone(), status: status.clone() },
                    );
                    proof {
                        assert(views(outcomes@) =~= earlier.push((results@[i as int].name@, status@)));
                        assert(start + case_outcomes(before).push((results@[i as int].name@, status@))
                            =~= (start + case_outcomes(before)).push(
                            (results@[i as int].name@, status@),
                        ));
                    }
                },
                _ => {},
            },
            None => {},
        }
        i += 1;
    }
    proof {
        assert(member_views(results@).subrange(0, results.len() as int) == member_views(results@));
    }
}

/// Reads the lines of the test runner's report.
pub fn outcomes_from_json(doc: &Json) -> (outcomes: Vec<TestOutcome>)
    ensures
        views(outcomes@) == outcomes_of(doc@),
{
    let mut outcomes: Vec<TestOutcome> = Vec::new();
    proof {
        lemma_json_view(*doc);
        assert(views(outcomes@) =~= Seq::empty());
    }
    match doc {
        Json::Object(contracts) => {
            let mut i: usize = 0;
            proof {
                assert(member_views(contracts@).subrange(0, 0) =~= Seq::empty());
            }
            while i < contracts.len()
                invariant
                    i <= contracts.len(),
                    views(outcomes@) == contracts_outcomes(
                        member_views(contracts@).subrange(0, i as int),
                    ),
                decreases contracts.len() - i,
            {
                let ghost before = member_views(contracts@).subrange(0, i as int);
                let ghost after = member_views(contracts@).subrange(0, i as int + 1);
                proof {
                    assert(after.drop_last() == before);
                    assert(after.last() == (contracts@[i as int].name@, contracts@[i as int].value@));
                }
                match contracts[i].value.get("test_results") {
                    Some(found) => {
                        proof {
                            lemma_json_view(*found);
                        }
                        match found {
                            Json::Object(results) => {
                                read_case_outcomes(results, &mut outcomes);
                            },
                            _ => {
                                proof {
                                    assert(views(outcomes@) + Seq::empty() =~= views(outcomes@));
                                }
                            },
                        }
                    },
                    None => {
                        proof {
                            assert(views(outcomes@) + Seq::empty() =~= views(outcomes@));
                        }
                    },
                }
                i += 1;
            }
            proof {
                assert(member_views(contracts@).subrange(0, contracts.len() as int)
                    == member_views(contracts@));
            }
        },
        _ => {},
    }
    outcomes
}

/// The report that a test run ends the job with: a run that could not be
/// made, output that is no JSON, or the scores of the questions against the
/// lines that the output gives.
pub open spec fn test_verdict(run: ToolRunModel, qs: Seq<QuestionModel>) -> ReportModel {
    match run {
        ToolRunModel::Failed(why) => failure_report(Stage::TestRunFailed, stripped(why), qs),
        ToolRunModel::Finished { stdout, stderr } => match json_parsed(stdout) {
            Ok(doc) => scored_report(qs, outcomes_of(doc)),
            Err(_) => malformed_output_report(qs),
        },
    }
}

/// Scores the questions against a test report that is already read.
pub fn score_against(doc: &Json, questions: &Vec<QuestionCase>) -> (r: Report)
    ensures
        r@ == scored_report(views(questions@), outcomes_of(doc@)),
{
    let outcomes = outcomes_from_json(doc);
    score(questions, &outcomes)
}

/// Judges a test run: the report that the job ends with.
pub fn judge_test(run: &ToolRun, questions: &Vec<QuestionCase>) -> (r: Report)
    ensures
        r@ == test_verdict(run@, views(questions@)),
{
    match run {
        ToolRun::Failed(why) => failure(Stage::TestRunFailed, strip_ansi(why.as_str()), questions),
        ToolRun::Finished { stdout, stderr } => match Json::from_text(stdout.as_str()) {
            Ok(doc) => score_against(&doc, questions),
            Err(_) => malformed_output(questions),
        },
    }
}

/// A build that the compiler refused ends the job with code 1, no score
/// earned, and what the compiler wrote, without colour sequences, as the
/// message.
pub proof fn lemma_refused_build(stdout: Seq<char>, stderr: Seq<char>, qs: Seq<QuestionModel>)
    requires
        stderr.len() > 0,
    ensures
        build_verdict(ToolRunModel::Finished { stdout, stderr }, qs) matches Some(r) && r.code == 1
            && r.get_score == 0 && r.msg == stripped(stderr) && r.questions == qs,
{
}

} // verus!
