//! The scoring engine: questions found in test sources are reconciled with
//! what the test runner reported, and summed up into a report.

use vstd::prelude::*;
use vstd::string::*;
use crate::views::views;

verus! {

/// A free-form attribute of a question, as `name: value`.
#[derive(Debug)]
pub struct Attribute {
    pub name: String,
    pub value: String,
}

impl View for Attribute {
    type V = (Seq<char>, Seq<char>);

    open spec fn view(&self) -> (Seq<char>, Seq<char>) {
        (self.name@, self.value@)
    }
}

/// One gradable test function.
#[derive(Debug)]
pub struct QuestionCase {
    pub function_name: String,
    pub declared_score: i64,
    pub attributes: Vec<Attribute>,
    pub passed: bool,
}

/// The mathematical value of a [`QuestionCase`].
pub struct QuestionModel {
    pub function_name: Seq<char>,
    pub declared_score: int,
    pub attributes: Seq<(Seq<char>, Seq<char>)>,
    pub passed: bool,
}

impl View for QuestionCase {
    type V = QuestionModel;

    open spec fn view(&self) -> QuestionModel {
        QuestionModel {
            function_name: self.function_name@,
            declared_score: self.declared_score as int,
            attributes: views(self.attributes@),
            passed: self.passed,
        }
    }
}

/// One line of the test runner's report: a test signature and its status.
#[derive(Debug)]
pub struct TestOutcome {
    pub signature: String,
    pub status: String,
}

impl View for TestOutcome {
    type V = (Seq<char>, Seq<char>);

    open spec fn view(&self) -> (Seq<char>, Seq<char>) {
        (self.signature@, self.status@)
    }
}

/// The signature under which the test runner reports a test function: its
/// name followed by an empty parameter list.
pub open spec fn signature_of(function_name: Seq<char>) -> Seq<char> {
    function_name + seq!['(', ')']
}

/// The status that marks a failed test.
pub open spec fn failure_status() -> Seq<char> {
    seq!['F', 'a', 'i', 'l', 'u', 'r', 'e']
}

/// The status reported for a signature: that of the first line that carries
/// it, or `None` where no line does.
pub open spec fn status_of(outcomes: Seq<(Seq<char>, Seq<char>)>, signature: Seq<char>) -> Option<
    Seq<char>,
>
    decreases outcomes.len(),
{
    if outcomes.len() == 0 {
        None
    } else if outcomes[0].0 == signature {
        Some(outcomes[0].1)
    } else {
        status_of(outcomes.drop_first(), signature)
    }
}

/// Whether a question was reached by the test run.
pub open spec fn reached(q: QuestionModel, outcomes: Seq<(Seq<char>, Seq<char>)>) -> bool {
    status_of(outcomes, signature_of(q.function_name)) is Some
}

/// Whether a question earns its score: it was reached and did not fail.
pub open spec fn earns(q: QuestionModel, outcomes: Seq<(Seq<char>, Seq<char>)>) -> bool {
    match status_of(outcomes, signature_of(q.function_name)) {
        Some(status) => status != failure_status(),
        None => false,
    }
}

/// A question after scoring: `passed` says whether it earned its score, and
/// is left as it was where the question was not reached.
pub open spec fn marked(q: QuestionModel, outcomes: Seq<(Seq<char>, Seq<char>)>) -> QuestionModel {
    if reached(q, outcomes) {
        QuestionModel { passed: earns(q, outcomes), ..q }
    } else {
        q
    }
}

/// Every question after scoring.
pub open spec fn marked_all(qs: Seq<QuestionModel>, outcomes: Seq<(Seq<char>, Seq<char>)>) -> Seq<
    QuestionModel,
> {
    qs.map_values(|q: QuestionModel| marked(q, outcomes))
}

/// The sum of the declared scores.
pub open spec fn total_score(qs: Seq<QuestionModel>) -> int
    decreases qs.len(),
{
    if qs.len() == 0 {
        0
    } else {
        total_score(qs.drop_last()) + qs.last().declared_score
    }
}

/// The sum of the declared scores of the questions that earn theirs.
pub open spec fn achieved_score(qs: Seq<QuestionModel>, outcomes: Seq<(Seq<char>, Seq<char>)>) -> int
    decreases qs.len(),
{
    if qs.len() == 0 {
        0
    } else {
        achieved_score(qs.drop_last(), outcomes) + if earns(qs.last(), outcomes) {
            qs.last().declared_score
        } else {
            0
        }
    }
}

/// Looks a signature up in the test runner's report.
pub fn find_status<'a>(outcomes: &'a Vec<TestOutcome>, signature: &String) -> (r: Option<&'a String>)
    ensures
        match r {
            Some(s) => status_of(views(outcomes@), signature@) == Some(s@),
            None => status_of(views(outcomes@), signature@) is None,
        },
{
    let mut i: usize = 0;
    proof {
        assert(views(outcomes@).subrange(0, outcomes.len() as int) =~= views(outcomes@));
    }
    while i < outcomes.len()
        invariant
            i <= outcomes.len(),
            status_of(views(outcomes@), signature@) == status_of(
                views(outcomes@).subrange(i as int, outcomes.len() as int),
                signature@,
            ),
        decreases outcomes.len() - i,
    {
        let ghost rest = views(outcomes@).subrange(i as int, outcomes.len() as int);
        proof {
            assert(rest[0] == outcomes@[i as int]@);
            assert(rest.drop_first() == views(outcomes@).subrange(i as int + 1, outcomes.len() as int));
        }
        if outcomes[i].signature == *signature {
            return Some(&outcomes[i].status);
        }
        i += 1;
    }
    proof {
        assert(views(outcomes@).subrange(i as int, outcomes.len() as int).len() == 0);
    }
    None
}

/// A copy of a list of attributes.
pub fn copy_attributes(attributes: &Vec<Attribute>) -> (r: Vec<Attribute>)
    ensures
        views(r@) == views(attributes@),
{
    let mut r: Vec<Attribute> = Vec::new();
    let mut i: usize = 0;
    while i < attributes.len()
        invariant
            i <= attributes.len(),
            r.len() == i,
            forall|j: int| 0 <= j < i ==> (#[trigger] r@[j])@ == attributes@[j]@,
        decreases attributes.len() - i,
    {
        r.push(Attribute { name: attributes[i].name.clone(), value: attributes[i].value.clone() });
        i += 1;
    }
    proof {
        assert(views(r@) =~= views(attributes@));
    }
    r
}

/// A copy of a question.
pub fn copy_question(q: &QuestionCase) -> (r: QuestionCase)
    ensures
        r@ == q@,
{
    QuestionCase {
        function_name: q.function_name.clone(),
        declared_score: q.declared_score,
        attributes: copy_attributes(&q.attributes),
        passed: q.passed,
    }
}

/// The text `Failure`.
pub fn failure_text() -> (s: String)
    ensures
        s@ == failure_status(),
{
    proof {
        reveal_strlit("Failure");
    }
    let s = String::from_str("Failure");
    assert(s@ =~= failure_status());
    s
}

/// Scores one question against the test runner's report: the question
/// with its mark, and whether it earns its score.
pub fn mark_question(q: &QuestionCase, outcomes: &Vec<TestOutcome>) -> (r: (QuestionCase, bool))
    ensures
        r.0@ == marked(q@, views(outcomes@)),
        r.1 == earns(q@, views(outcomes@)),
{
    proof {
        reveal_strlit("()");
    }
    let signature = q.function_name.clone().concat("()");
    assert(signature@ =~= signature_of(q.function_name@));
    let mut marked = copy_question(q);
    match find_status(outcomes, &signature) {
        Some(status) => {
            let failure = failure_text();
            let earned = !(*status == failure);
            marked.passed = earned;
            (marked, earned)
        },
        None => (marked, false),
    }
}

} // verus!
