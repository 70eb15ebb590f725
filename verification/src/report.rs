//! The report a job ends in, and the stage it reached.

use vstd::prelude::*;
use vstd::string::*;
use crate::json::{
    item_views, json_text, lemma_json_view, member_views, set_member, Json, JsonModel, Member,
};
use crate::keyed::with_entry;
use crate::number::decimal;
use crate::scoring::{
    achieved_score, copy_question, mark_question, marked, marked_all, reached, total_score,
    QuestionCase, QuestionModel, TestOutcome,
};
use crate::views::views;

verus! {

/// The outermost stage a job reached.
#[derive(Debug, Clone, Copy, PartialEq, Eq, Structural)]
pub enum Stage {
    /// Build and tests ran; the questions are scored.
    Complete,
    /// The compiler refused the sources.
    CompileFailed,
    /// The build could not be run at all.
    BuildFailed,
    /// The test runner could not be run at all.
    TestRunFailed,
    /// The test runner's output was no JSON.
    MalformedTestOutput,
    /// The job brought no files.
    NoFiles,
}

impl Stage {
    /// The code a report carries for this stage.
    pub open spec fn spec_code(self) -> int {
        match self {
            Stage::Complete => 0,
            Stage::CompileFailed => 1,
            Stage::MalformedTestOutput => 2,
            Stage::NoFiles => 2,
            Stage::BuildFailed => 3,
            Stage::TestRunFailed => 4,
        }
    }

    /// The headline a report carries for this stage.
    pub open spec fn spec_info(self) -> Seq<char> {
        match self {
            Stage::Complete => "Complete"@,
            Stage::CompileFailed => "Compile failed"@,
            Stage::MalformedTestOutput => "Result not json"@,
            Stage::NoFiles => "Result not json"@,
            Stage::BuildFailed => "Build failed"@,
            Stage::TestRunFailed => "Test failed"@,
        }
    }

    /// The code a report carries for this stage.
    pub fn code(self) -> (c: i64)
        ensures
            c == self.spec_code(),
    {
        match self {
            Stage::Complete => 0,
            Stage::CompileFailed => 1,
            Stage::MalformedTestOutput => 2,
            Stage::NoFiles => 2,
            Stage::BuildFailed => 3,
            Stage::TestRunFailed => 4,
        }
    }

    /// The headline a report carries for this stage.
    pub fn info(self) -> (s: String)
        ensures
            s@ == self.spec_info(),
    {
        match self {
            Stage::Complete => String::from_str("Complete"),
            Stage::CompileFailed => String::from_str("Compile failed"),
            Stage::MalformedTestOutput => String::from_str("Result not json"),
            Stage::NoFiles => String::from_str("Result not json"),
            Stage::BuildFailed => String::from_str("Build failed"),
            Stage::TestRunFailed => String::from_str("Test failed"),
        }
    }
}

/// The final report of a job.
#[derive(Debug)]
pub struct Report {
    /// The outermost stage that the job reached.
    pub stage: Stage,
    /// The headline of that stage.
    pub info: String,
    /// The code of that stage.
    pub code: i64,
    /// What the toolchain wrote, for a stage at which it failed.
    pub msg: String,
    /// The sum of the declared scores.
    pub total_score: i128,
    /// The sum of the scores that were earned.
    pub get_score: i128,
    /// The questions, each with its mark.
    pub questions: Vec<QuestionCase>,
}

/// The mathematical value of a [`Report`].
pub struct ReportModel {
    pub stage: Stage,
    pub info: Seq<char>,
    pub code: int,
    pub msg: Seq<char>,
    pub total_score: int,
    pub get_score: int,
    pub questions: Seq<QuestionModel>,
}

impl View for Report {
    type V = ReportModel;

    open spec fn view(&self) -> ReportModel {
        ReportModel {
            stage: self.stage,
            info: self.info@,
            code: self.code as int,
            msg: self.msg@,
            total_score: self.total_score as int,
            get_score: self.get_score as int,
            questions: views(self.questions@),
        }
    }
}

/// The report of a job whose build and tests ran: every question is marked,
/// the declared scores are summed, and so are those that were earned.
pub open spec fn scored_report(
    qs: Seq<QuestionModel>,
    outcomes: Seq<(Seq<char>, Seq<char>)>,
) -> ReportModel {
    ReportModel {
        stage: Stage::Complete,
        info: Stage::Complete.spec_info(),
        code: Stage::Complete.spec_code(),
        msg: "Complete"@,
        total_score: total_score(qs),
        get_score: achieved_score(qs, outcomes),
        questions: marked_all(qs, outcomes),
    }
}

/// The report of a job that stopped at `stage`: the questions as they were
/// found, their declared scores summed, and no score earned.
pub open spec fn failure_report(stage: Stage, msg: Seq<char>, qs: Seq<QuestionModel>) -> ReportModel {
    ReportModel {
        stage,
        info: stage.spec_info(),
        code: stage.spec_code(),
        msg: msg,
        total_score: total_score(qs),
        get_score: 0,
        questions: qs,
    }
}

/// The report of a job that brought no files.
pub open spec fn no_files_report() -> ReportModel {
    failure_report(Stage::NoFiles, "No files"@, Seq::empty())
}

/// The report of a job whose test output was no JSON.
pub open spec fn malformed_output_report(qs: Seq<QuestionModel>) -> ReportModel {
    failure_report(Stage::MalformedTestOutput, "No files"@, qs)
}

/// The sum of `k` scores lies within `k` times the range of one.
proof fn lemma_score_bounds(qs: Seq<QuestionModel>, outcomes: Seq<(Seq<char>, Seq<char>)>)
    requires
        forall|i: int|
            0 <= i < qs.len() ==> i64::MIN <= (#[trigger] qs[i]).declared_score <= i64::MAX,
    ensures
        qs.len() * i64::MIN <= total_score(qs) <= qs.len() * i64::MAX,
        qs.len() * i64::MIN <= achieved_score(qs, outcomes) <= qs.len() * i64::MAX,
    decreases qs.len(),
{
    if qs.len() > 0 {
        lemma_score_bounds(qs.drop_last(), outcomes);
        assert(i64::MIN <= qs[qs.len() - 1].declared_score <= i64::MAX);
    }
}

/// Scores the questions against the test runner's report.
pub fn score(cases: &Vec<QuestionCase>, outcomes: &Vec<TestOutcome>) -> (r: Report)
    ensures
        r@ == scored_report(views(cases@), views(outcomes@)),
{
    let ghost qs = views(cases@);
    let ghost os = views(outcomes@);
    let mut total: i128 = 0;
    let mut achieved: i128 = 0;
    let mut questions: Vec<QuestionCase> = Vec::new();
    let mut i: usize = 0;
    while i < cases.len()
        invariant
            i <= cases.len(),
            qs == views(cases@),
            os == views(outcomes@),
            total == total_score(qs.subrange(0, i as int)),
            achieved == achieved_score(qs.subrange(0, i as int), os),
            questions.len() == i,
            forall|j: int| 0 <= j < i ==> (#[trigger] questions@[j])@ == marked(qs[j], os),
        decreases cases.len() - i,
    {
        let ghost before = qs.subrange(0, i as int);
        let ghost after = qs.subrange(0, i as int + 1);
        proof {
            assert(after.drop_last() == before);
            assert(after.last() == cases@[i as int]@);
            lemma_score_bounds(before, os);
            assert(before.len() * i64::MIN == i * i64::MIN);
            assert(before.len() * i64::MAX == i * i64::MAX);
        }
        let (q, earned) = mark_question(&cases[i], outcomes);
        let declared: i128 = cases[i].declared_score as i128;
        total = total + declared;
        if earned {
            achieved = achieved + declared;
        }
        questions.push(q);
        i += 1;
    }
    proof {
        assert(qs.subrange(0, cases.len() as int) == qs);
        assert(views(questions@) =~= marked_all(qs, os));
    }
    Report {
        stage: Stage::Complete,
        info: Stage::Complete.info(),
        code: Stage::Complete.code(),
        msg: String::from_str("Complete"),
        total_score: total,
        get_score: achieved,
        questions,
    }
}

/// The sum of the declared scores.
pub fn total_of(cases: &Vec<QuestionCase>) -> (total: i128)
    ensures
        total == total_score(views(cases@)),
{
    let ghost qs = views(cases@);
    let mut total: i128 = 0;
    let mut i: usize = 0;
    while i < cases.len()
        invariant
            i <= cases.len(),
            qs == views(cases@),
            total == total_score(qs.subrange(0, i as int)),
        decreases cases.len() - i,
    {
        let ghost before = qs.subrange(0, i as int);
        let ghost after = qs.subrange(0, i as int + 1);
        proof {
            assert(after.drop_last() == before);
            assert(after.last() == cases@[i as int]@);
            lemma_score_bounds(before, Seq::empty());
            assert(before.len() * i64::MIN == i * i64::MIN);
            assert(before.len() * i64::MAX == i * i64::MAX);
        }
        total = total + cases[i].declared_score as i128;
        i += 1;
    }
    proof {
        assert(qs.subrange(0, cases.len() as int) == qs);
    }
    total
}

/// A copy of a list of questions.
pub fn copy_questions(cases: &Vec<QuestionCase>) -> (r: Vec<QuestionCase>)
    ensures
        views(r@) == views(cases@),
{
    let mut r: Vec<QuestionCase> = Vec::new();
    let mut i: usize = 0;
    while i < cases.len()
        invariant
            i <= cases.len(),
            r.len() == i,
            forall|j: int| 0 <= j < i ==> (#[trigger] r@[j])@ == cases@[j]@,
        decreases cases.len() - i,
    {
        r.push(copy_question(&cases[i]));
        i += 1;
    }
    proof {
        assert(views(r@) =~= views(cases@));
    }
    r
}

/// The report of a job that stopped at `stage` with the message `msg`.
pub fn failure(stage: Stage, msg: String, cases: &Vec<QuestionCase>) -> (r: Report)
    ensures
        r@ == failure_report(stage, msg@, views(cases@)),
{
    Report {
        stage,
        info: stage.info(),
        code: stage.code(),
        msg,
        total_score: total_of(cases),
        get_score: 0,
        questions: copy_questions(cases),
    }
}

/// The report of a job that brought no files.
pub fn no_files() -> (r: Report)
    ensures
        r@ == no_files_report(),
{
    let cases: Vec<QuestionCase> = Vec::new();
    let r = failure(Stage::NoFiles, String::from_str("No files"), &cases);
    assert(views(cases@) =~= Seq::empty());
    r
}

/// The report of a job whose test output was no JSON.
pub fn malformed_output(cases: &Vec<QuestionCase>) -> (r: Report)
    ensures
        r@ == malformed_output_report(views(cases@)),
{
    failure(Stage::MalformedTestOutput, String::from_str("No files"), cases)
}

/// A question that the test run did not reach keeps its `passed` mark,
/// counts towards the total with its declared score, and adds nothing to the
/// achieved score: both sums are what they would be without it, but for the
/// declared score in the total.
pub proof fn lemma_unreached_question(
    qs: Seq<QuestionModel>,
    outcomes: Seq<(Seq<char>, Seq<char>)>,
    i: int,
)
    requires
        0 <= i < qs.len(),
        !reached(qs[i], outcomes),
    ensures
        scored_report(qs, outcomes).questions[i] == qs[i],
        scored_report(qs, outcomes).total_score == scored_report(qs.remove(i), outcomes).total_score
            + qs[i].declared_score,
        scored_report(qs, outcomes).get_score == scored_report(qs.remove(i), outcomes).get_score,
    decreases qs.len(),
{
    if i == qs.len() - 1 {
        assert(qs.remove(i) == qs.drop_last());
    } else {
        lemma_unreached_question(qs.drop_last(), outcomes, i);
        assert(qs.remove(i).drop_last() == qs.drop_last().remove(i));
        assert(qs.remove(i).last() == qs.last());
        assert(qs.drop_last()[i] == qs[i]);
    }
}

/// Marking changes neither the declared scores nor which questions earn
/// theirs.
proof fn lemma_marking_keeps_scores(qs: Seq<QuestionModel>, outcomes: Seq<(Seq<char>, Seq<char>)>)
    ensures
        total_score(marked_all(qs, outcomes)) == total_score(qs),
        achieved_score(marked_all(qs, outcomes), outcomes) == achieved_score(qs, outcomes),
    decreases qs.len(),
{
    if qs.len() > 0 {
        lemma_marking_keeps_scores(qs.drop_last(), outcomes);
        assert(marked_all(qs, outcomes).drop_last() == marked_all(qs.drop_last(), outcomes));
        assert(marked_all(qs, outcomes).last() == marked(qs.last(), outcomes));
    }
}

/// Scoring is idempotent: scoring the questions of a report once more against
/// the same test output gives the same report, score for score and mark for
/// mark.
pub proof fn lemma_scoring_idempotent(qs: Seq<QuestionModel>, outcomes: Seq<(Seq<char>, Seq<char>)>)
    ensures
        scored_report(scored_report(qs, outcomes).questions, outcomes) == scored_report(
            qs,
            outcomes,
        ),
{
    lemma_marking_keeps_scores(qs, outcomes);
    assert(marked_all(marked_all(qs, outcomes), outcomes) =~= marked_all(qs, outcomes));
}

/// What scoring returns depends on the questions and the test output alone:
/// two runs on the same pair agree on both sums and on every mark.
pub proof fn lemma_scoring_repeatable(
    first: Report,
    second: Report,
    cases: Vec<QuestionCase>,
    outcomes: Vec<TestOutcome>,
)
    requires
        first@ == scored_report(views(cases@), views(outcomes@)),
        second@ == scored_report(views(cases@), views(outcomes@)),
    ensures
        first@.total_score == second@.total_score,
        first@.get_score == second@.get_score,
        first@.questions == second@.questions,
{
}

/// The members that a question's attributes make in its document: each
/// attribute in turn gives its name its value as text.
pub open spec fn attribute_members(attributes: Seq<(Seq<char>, Seq<char>)>) -> Seq<
    (Seq<char>, JsonModel),
>
    decreases attributes.len(),
{
    if attributes.len() == 0 {
        Seq::empty()
    } else {
        with_entry(
            attribute_members(attributes.drop_last()),
            attributes.last().0,
            JsonModel::Text(attributes.last().1),
        )
    }
}

/// The document of a question: its attributes, over which `Func` holds the
/// function's name, `Score` the declared score and `Passed` the mark.
pub open spec fn question_document(q: QuestionModel) -> JsonModel {
    JsonModel::Object(
        with_entry(
            with_entry(
                with_entry(
                    attribute_members(q.attributes),
                    "Func"@,
                    JsonModel::Text(q.function_name),
                ),
                "Score"@,
                JsonModel::Number(decimal(q.declared_score)),
            ),
            "Passed"@,
            JsonModel::Bool(q.passed),
        ),
    )
}

/// The document of a report.
pub open spec fn report_document(r: ReportModel) -> JsonModel {
    JsonModel::Object(
        seq![
            ("info"@, JsonModel::Text(r.info)),
            ("code"@, JsonModel::Number(decimal(r.code))),
            ("msg"@, JsonModel::Text(r.msg)),
            ("total_score"@, JsonModel::Number(decimal(r.total_score))),
            ("get_score"@, JsonModel::Number(decimal(r.get_score))),
            (
                "questions"@,
                JsonModel::Array(r.questions.map_values(|q: QuestionModel| question_document(q))),
            ),
        ],
    )
}

/// Makes the document of a question.
pub fn question_to_json(q: &QuestionCase) -> (doc: Json)
    ensures
        doc@ == question_document(q@),
{
    let mut members: Vec<Member> = Vec::new();
    let mut i: usize = 0;
    proof {
        assert(views(q.attributes@).subrange(0, 0) =~= Seq::empty());
        assert(member_views(members@) =~= Seq::empty());
    }
    while i < q.attributes.len()
        invariant
            i <= q.attributes.len(),
            member_views(members@) == attribute_members(views(q.attributes@).subrange(0, i as int)),
        decreases q.attributes.len() - i,
    {
        let ghost before = views(q.attributes@).subrange(0, i as int);
        let ghost after = views(q.attributes@).subrange(0, i as int + 1);
        proof {
            assert(after.drop_last() == before);
            assert(after.last() == q.attributes@[i as int]@);
        }
        set_member(
            &mut members,
            q.attributes[i].name.as_str(),
            Json::Text(q.attributes[i].value.clone()),
        );
        i += 1;
    }
    proof {
        assert(views(q.attributes@).subrange(0, q.attributes.len() as int) == views(q.attributes@));
    }
    set_member(&mut members, "Func", Json::Text(q.function_name.clone()));
    set_member(&mut members, "Score", Json::integer(q.declared_score as i128));
    set_member(&mut members, "Passed", Json::Bool(q.passed));
    let doc = Json::Object(members);
    proof {
        lemma_json_view(doc);
    }
    doc
}

/// Makes the document of a report.
pub fn report_to_json(r: &Report) -> (doc: Json)
    ensures
        doc@ == report_document(r@),
{
    let mut questions: Vec<Json> = Vec::new();
    let mut i: usize = 0;
    while i < r.questions.len()
        invariant
            i <= r.questions.len(),
            questions.len() == i,
            forall|j: int|
                0 <= j < i ==> (#[trigger] questions@[j])@ == question_document(r.questions@[j]@),
        decreases r.questions.len() - i,
    {
        questions.push(question_to_json(&r.questions[i]));
        i += 1;
    }
    let array = Json::Array(questions);
    proof {
        lemma_json_view(array);
        assert(item_views(questions@) =~= r@.questions.map_values(
            |q: QuestionModel| question_document(q),
        ));
    }
    let mut members: Vec<Member> = Vec::new();
    members.push(Member { name: String::from_str("info"), value: Json::Text(r.info.clone()) });
    members.push(Member { name: String::from_str("code"), value: Json::integer(r.code as i128) });
    members.push(Member { name: String::from_str("msg"), value: Json::Text(r.msg.clone()) });
    members.push(
        Member { name: String::from_str("total_score"), value: Json::integer(r.total_score) },
    );
    members.push(Member { name: String::from_str("get_score"), value: Json::integer(r.get_score) });
    members.push(Member { name: String::from_str("questions"), value: array });
    let doc = Json::Object(members);
    proof {
        lemma_json_view(doc);
        assert(member_views(members@) =~= report_document(r@)->Object_0);
    }
    doc
}

/// Writes a report as the text that answers a request.
pub fn render_report(r: &Report) -> (text: String)
    ensures
        text@ == json_text(report_document(r@)),
{
    report_to_json(r).to_text()
}

} // verus!
