//! The job message: what a caller submits, and its form on the work list.

use vstd::prelude::*;
use vstd::string::*;
use crate::json::{item_views, lemma_json_view, member_views, Json, JsonModel, Member};
use crate::keyed::position_of;
use crate::views::views;

verus! {

/// One submitted file: its path relative to the job's workspace, and its
/// content.
#[derive(Debug)]
pub struct PathWithContent {
    pub path: String,
    pub content: String,
}

impl View for PathWithContent {
    type V = (Seq<char>, Seq<char>);

    open spec fn view(&self) -> (Seq<char>, Seq<char>) {
        (self.path@, self.content@)
    }
}

/// A submitted unit of work.
#[derive(Debug)]
pub struct JobMessage {
    /// The question set, which names the grading rubric and the workspace.
    pub question_no: String,
    /// The compiler version to build with.
    pub solc_version: String,
    /// The caller's own label for the job.
    pub judge_job_id: String,
    /// The prefix of the two handshake keys of this job.
    pub job_key: String,
    /// The files, in the order in which they were submitted.
    pub path_with_content: Vec<PathWithContent>,
}

/// The mathematical value of a [`JobMessage`].
pub struct JobModel {
    pub question_no: Seq<char>,
    pub solc_version: Seq<char>,
    pub judge_job_id: Seq<char>,
    pub job_key: Seq<char>,
    pub path_with_content: Seq<(Seq<char>, Seq<char>)>,
}

impl View for JobMessage {
    type V = JobModel;

    open spec fn view(&self) -> JobModel {
        JobModel {
            question_no: self.question_no@,
            solc_version: self.solc_version@,
            judge_job_id: self.judge_job_id@,
            job_key: self.job_key@,
            path_with_content: views(self.path_with_content@),
        }
    }
}

/// The namespace under which handshake keys are derived from a question set.
pub const JOB_KEY_NAMESPACE: &'static str = "smc-open-foundry-judge";

/// The handshake key prefix of a question set: the namespace, a colon, and
/// the question set.
pub open spec fn job_key_of(question_no: Seq<char>) -> Seq<char> {
    JOB_KEY_NAMESPACE@ + seq![':'] + question_no
}

/// Derives the handshake key prefix of a question set.
pub fn derive_job_key(question_no: &str) -> (key: String)
    ensures
        key@ == job_key_of(question_no@),
{
    proof {
        reveal_strlit(":");
    }
    let key = String::from_str(JOB_KEY_NAMESPACE).concat(":").concat(question_no);
    assert(":"@ =~= seq![':']);
    key
}

/// The text that the member `name` of an object holds; `None` where there
/// is no such member or it holds no text.
pub open spec fn text_member(doc: JsonModel, name: Seq<char>) -> Option<Seq<char>> {
    match doc.member(name) {
        Some(JsonModel::Text(s)) => Some(s),
        _ => None,
    }
}

/// The file that a document stands for: an object with the texts `path` and
/// `content`.
pub open spec fn file_of(doc: JsonModel) -> Option<(Seq<char>, Seq<char>)> {
    match (text_member(doc, "path"@), text_member(doc, "content"@)) {
        (Some(path), Some(content)) => Some((path, content)),
        _ => None,
    }
}

/// The files that a list of documents stands for, in order; `None` where one
/// of them stands for no file.
pub open spec fn files_of(items: Seq<JsonModel>) -> Option<Seq<(Seq<char>, Seq<char>)>>
    decreases items.len(),
{
    if items.len() == 0 {
        Some(Seq::empty())
    } else {
        match (files_of(items.drop_last()), file_of(items.last())) {
            (Some(earlier), Some(file)) => Some(earlier.push(file)),
            _ => None,
        }
    }
}

/// The job that a document stands for: an object with the texts
/// `questionNo`, `solcVersion`, `judgeJobId` and `jobKey`, and with the array
/// `pathWithContent` of files. Other members are passed over.
pub open spec fn job_of(doc: JsonModel) -> Option<JobModel> {
    match (
        text_member(doc, "questionNo"@),
        text_member(doc, "solcVersion"@),
        text_member(doc, "judgeJobId"@),
        text_member(doc, "jobKey"@),
        doc.member("pathWithContent"@),
    ) {
        (
            Some(question_no),
            Some(solc_version),
            Some(judge_job_id),
            Some(job_key),
            Some(JsonModel::Array(items)),
        ) => match files_of(items) {
            Some(files) => Some(
                JobModel {
                    question_no,
                    solc_version,
                    judge_job_id,
                    job_key,
                    path_with_content: files,
                },
            ),
            None => None,
        },
        _ => None,
    }
}

/// The document that stands for a file.
pub open spec fn file_document(file: (Seq<char>, Seq<char>)) -> JsonModel {
    JsonModel::Object(
        seq![("path"@, JsonModel::Text(file.0)), ("content"@, JsonModel::Text(file.1))],
    )
}

/// The document that stands for a job.
pub open spec fn job_document(job: JobModel) -> JsonModel {
    JsonModel::Object(
        seq![
            ("questionNo"@, JsonModel::Text(job.question_no)),
            (
                "pathWithContent"@,
                JsonModel::Array(
                    job.path_with_content.map_values(|f: (Seq<char>, Seq<char>)| file_document(f)),
                ),
            ),
            ("judgeJobId"@, JsonModel::Text(job.judge_job_id)),
            ("solcVersion"@, JsonModel::Text(job.solc_version)),
            ("jobKey"@, JsonModel::Text(job.job_key)),
        ],
    )
}

/// Reads the text that a member of an object holds.
pub fn read_text_member(doc: &Json, name: &str) -> (r: Option<String>)
    ensures
        match r {
            Some(s) => text_member(doc@, name@) == Some(s@),
            None => text_member(doc@, name@) is None,
        },
{
    match doc.get(name) {
        Some(found) => match found {
            Json::Text(s) => Some(s.clone()),
            _ => None,
        },
        None => None,
    }
}

/// Reads the file that a document stands for.
pub fn read_file(doc: &Json) -> (r: Option<PathWithContent>)
    ensures
        match r {
            Some(f) => file_of(doc@) == Some(f@),
            None => file_of(doc@) is None,
        },
{
    match (read_text_member(doc, "path"), read_text_member(doc, "content")) {
        (Some(path), Some(content)) => Some(PathWithContent { path, content }),
        _ => None,
    }
}

/// Where the documents up to some point stand for no list of files, the
/// whole list stands for none either.
proof fn lemma_files_of_prefix(items: Seq<JsonModel>, k: int)
    requires
        0 <= k <= items.len(),
        files_of(items.subrange(0, k)) is None,
    ensures
        files_of(items) is None,
    decreases items.len() - k,
{
    if k == items.len() {
        assert(items.subrange(0, k) == items);
    } else {
        assert(items.subrange(0, k + 1).drop_last() == items.subrange(0, k));
        lemma_files_of_prefix(items, k + 1);
    }
}

/// Reads the files that a list of documents stands for.
pub fn read_files(items: &Vec<Json>) -> (r: Option<Vec<PathWithContent>>)
    ensures
        match r {
            Some(files) => files_of(item_views(items@)) == Some(views(files@)),
            None => files_of(item_views(items@)) is None,
        },
{
    let mut files: Vec<PathWithContent> = Vec::new();
    let mut i: usize = 0;
    proof {
        assert(item_views(items@).subrange(0, 0) =~= Seq::empty());
        assert(views(files@) =~= Seq::empty());
    }
    while i < items.len()
        invariant
            i <= items.len(),
            files_of(item_views(items@).subrange(0, i as int)) == Some(views(files@)),
        decreases items.len() - i,
    {
        let ghost before = item_views(items@).subrange(0, i as int);
        let ghost after = item_views(items@).subrange(0, i as int + 1);
        proof {
            assert(after.drop_last() == before);
            assert(after.last() == items@[i as int]@);
        }
        match read_file(&items[i]) {
            Some(file) => {
                let ghost earlier = views(files@);
                files.push(file);
                proof {
                    assert(views(files@) =~= earlier.push(file@));
                }
            },
            None => {
                proof {
                    lemma_files_of_prefix(item_views(items@), i as int + 1);
                }
                return None;
            },
        }
        i += 1;
    }
    proof {
        assert(item_views(items@).subrange(0, items.len() as int) == item_views(items@));
    }
    Some(files)
}

/// Reads the job that a document stands for.
pub fn read_job(doc: &Json) -> (r: Option<JobMessage>)
    ensures
        match r {
            Some(job) => job_of(doc@) == Some(job@),
            None => job_of(doc@) is None,
        },
{
    let question_no = read_text_member(doc, "questionNo");
    let solc_version = read_text_member(doc, "solcVersion");
    let judge_job_id = read_text_member(doc, "judgeJobId");
    let job_key = read_text_member(doc, "jobKey");
    let files = match doc.get("pathWithContent") {
        Some(found) => {
            proof {
                lemma_json_view(*found);
            }
            match found {
                Json::Array(items) => read_files(items),
                _ => None,
            }
        },
        None => None,
    };
    match (question_no, solc_version, judge_job_id, job_key, files) {
        (
            Some(question_no),
            Some(solc_version),
            Some(judge_job_id),
            Some(job_key),
            Some(path_with_content),
        ) => Some(
            JobMessage { question_no, solc_version, judge_job_id, job_key, path_with_content },
        ),
        _ => None,
    }
}

/// Makes the document that stands for a file.
pub fn file_to_json(file: &PathWithContent) -> (doc: Json)
    ensures
        doc@ == file_document(file@),
{
    let mut members: Vec<Member> = Vec::new();
    members.push(Member { name: String::from_str("path"), value: Json::Text(file.path.clone()) });
    members.push(
        Member { name: String::from_str("content"), value: Json::Text(file.content.clone()) },
    );
    let doc = Json::Object(members);
    proof {
        lemma_json_view(doc);
        assert(member_views(members@) =~= file_document(file@)->Object_0);
    }
    doc
}

/// Makes the document that stands for a job.
pub fn job_to_json(job: &JobMessage) -> (doc: Json)
    ensures
        doc@ == job_document(job@),
{
    let mut files: Vec<Json> = Vec::new();
    let mut i: usize = 0;
    while i < job.path_with_content.len()
        invariant
            i <= job.path_with_content.len(),
            files.len() == i,
            forall|j: int|
                0 <= j < i ==> (#[trigger] files@[j])@ == file_document(job.path_with_content@[j]@),
        decreases job.path_with_content.len() - i,
    {
        files.push(file_to_json(&job.path_with_content[i]));
        i += 1;
    }
    let array = Json::Array(files);
    proof {
        lemma_json_view(array);
        assert(item_views(files@) =~= job@.path_with_content.map_values(
            |f: (Seq<char>, Seq<char>)| file_document(f),
        ));
    }
    let mut members: Vec<Member> = Vec::new();
    members.push(
        Member { name: String::from_str("questionNo"), value: Json::Text(job.question_no.clone()) },
    );
    members.push(Member { name: String::from_str("pathWithContent"), value: array });
    members.push(
        Member { name: String::from_str("judgeJobId"), value: Json::Text(job.judge_job_id.clone()) },
    );
    members.push(
        Member { name: String::from_str("solcVersion"), value: Json::Text(job.solc_version.clone()) },
    );
    members.push(Member { name: String::from_str("jobKey"), value: Json::Text(job.job_key.clone()) });
    let doc = Json::Object(members);
    proof {
        lemma_json_view(doc);
        assert(member_views(members@) =~= job_document(job@)->Object_0);
    }
    doc
}

/// The document of a file stands for that file.
pub proof fn lemma_file_round_trip(file: (Seq<char>, Seq<char>))
    ensures
        file_of(file_document(file)) == Some(file),
{
    reveal_strlit("path");
    reveal_strlit("content");
    let members = file_document(file)->Object_0;
    assert("path"@[0] != "content"@[0]);
    assert(members[0].0 == "path"@);
    assert(position_of(members, "path"@) == 0);
    assert(members.drop_first()[0].0 == "content"@);
    assert(position_of(members.drop_first(), "content"@) == 0);
    assert(position_of(members, "content"@) == 1);
}

/// The documents of some files stand for those files, in order.
pub proof fn lemma_files_round_trip(files: Seq<(Seq<char>, Seq<char>)>)
    ensures
        files_of(files.map_values(|f: (Seq<char>, Seq<char>)| file_document(f))) == Some(files),
    decreases files.len(),
{
    let docs = files.map_values(|f: (Seq<char>, Seq<char>)| file_document(f));
    if files.len() > 0 {
        lemma_files_round_trip(files.drop_last());
        assert(docs.drop_last() =~= files.drop_last().map_values(
            |f: (Seq<char>, Seq<char>)| file_document(f),
        ));
        lemma_file_round_trip(files.last());
        assert(files.drop_last().push(files.last()) =~= files);
    } else {
        assert(files =~= Seq::empty());
    }
}

/// Encoding loses nothing: the document of a job stands for that job.
pub proof fn lemma_job_round_trip(job: JobModel)
    ensures
        job_of(job_document(job)) == Some(job),
{
    reveal_strlit("questionNo");
    reveal_strlit("pathWithContent");
    reveal_strlit("judgeJobId");
    reveal_strlit("solcVersion");
    reveal_strlit("jobKey");
    let m0 = job_document(job)->Object_0;
    let m1 = m0.drop_first();
    let m2 = m1.drop_first();
    let m3 = m2.drop_first();
    let m4 = m3.drop_first();
    assert(m0[0].0 == "questionNo"@ && m1[0].0 == "pathWithContent"@ && m2[0].0 == "judgeJobId"@
        && m3[0].0 == "solcVersion"@ && m4[0].0 == "jobKey"@);
    assert("questionNo"@[0] == 'q' && "pathWithContent"@[0] == 'p' && "judgeJobId"@[0] == 'j'
        && "solcVersion"@[0] == 's' && "jobKey"@[0] == 'j');
    assert("judgeJobId"@[1] == 'u' && "jobKey"@[1] == 'o');
    assert(position_of(m0, "questionNo"@) == 0);
    assert(position_of(m1, "pathWithContent"@) == 0);
    assert(position_of(m0, "pathWithContent"@) == 1);
    assert(position_of(m2, "judgeJobId"@) == 0);
    assert(position_of(m1, "judgeJobId"@) == 1);
    assert(position_of(m0, "judgeJobId"@) == 2);
    assert(position_of(m3, "solcVersion"@) == 0);
    assert(position_of(m2, "solcVersion"@) == 1);
    assert(position_of(m1, "solcVersion"@) == 2);
    assert(position_of(m0, "solcVersion"@) == 3);
    assert(position_of(m4, "jobKey"@) == 0);
    assert(position_of(m3, "jobKey"@) == 1);
    assert(position_of(m2, "jobKey"@) == 2);
    assert(position_of(m1, "jobKey"@) == 3);
    assert(position_of(m0, "jobKey"@) == 4);
    lemma_files_round_trip(job.path_with_content);
}

} // verus!
