//! The private directory of a worker slot, and the files of a job in it.

use vstd::prelude::*;
use vstd::string::*;
use crate::job::{JobMessage, JobModel};
use crate::number::{decimal_nat, digit_char, push_decimal};
use crate::server::ErrorCode;
use crate::text::{chars_of, push_char, text_of_range};
use crate::views::views;

verus! {

/// The name of a slot's directory: the slot's index in decimal notation, a
/// `0` before a single digit.
pub open spec fn slot_name(slot: nat) -> Seq<char> {
    if slot < 10 {
        seq!['0'] + decimal_nat(slot)
    } else {
        decimal_nat(slot)
    }
}

/// Writes the name of a slot's directory.
pub fn slot_directory_name(slot: u8) -> (name: String)
    ensures
        name@ == slot_name(slot as nat),
{
    let mut name = String::new();
    if slot < 10 {
        push_char(&mut name, '0');
    }
    push_decimal(&mut name, slot as u128);
    assert(name@ =~= slot_name(slot as nat));
    name
}

/// A path below a directory: the directory, a slash, and the path within.
pub open spec fn joined(base: Seq<char>, within: Seq<char>) -> Seq<char> {
    base + seq!['/'] + within
}

/// Makes the path below a directory.
pub fn join(base: &str, within: &str) -> (path: String)
    ensures
        path@ == joined(base@, within@),
{
    proof {
        reveal_strlit("/");
    }
    let path = String::from_str(base).concat("/").concat(within);
    assert("/"@ =~= seq!['/']);
    path
}

/// The path of an entry of a directory, relative to where a walk started:
/// the entry's name below the directory's own relative path, or the name
/// alone for an entry of the directory where the walk started.
pub open spec fn child_path_of(relative: Seq<char>, name: Seq<char>) -> Seq<char> {
    if relative.len() == 0 {
        name
    } else {
        joined(relative, name)
    }
}

/// Makes the relative path of an entry of a directory.
pub fn child_path(relative: &str, name: &str) -> (path: String)
    ensures
        path@ == child_path_of(relative@, name@),
{
    if relative.unicode_len() == 0 {
        String::from_str(name)
    } else {
        join(relative, name)
    }
}

/// The workspace of a question set under a slot: the workers' directory,
/// the slot's directory, the question set.
pub open spec fn workspace_root(worker_dir: Seq<char>, slot: nat, question_no: Seq<char>) -> Seq<
    char,
> {
    joined(joined(worker_dir, slot_name(slot)), question_no)
}

/// The directories of a workspace.
#[derive(Debug)]
pub struct Workspace {
    /// The workspace itself; sources are built from here.
    pub root: String,
    /// Where the test sources lie.
    pub test: String,
    /// Where the report of a job is written; wiped for every job.
    pub output: String,
    /// The report of a job.
    pub output_file: String,
    /// Where the build keeps its cache.
    pub cache: String,
    /// Where the build puts its artifacts.
    pub out: String,
}

impl Workspace {
    /// Whether this is the workspace whose root is `root`.
    pub open spec fn is_at(self, root: Seq<char>) -> bool {
        &&& self.root@ == root
        &&& self.test@ == joined(root, "test"@)
        &&& self.output@ == joined(root, "output"@)
        &&& self.output_file@ == joined(joined(root, "output"@), "output.json"@)
        &&& self.cache@ == joined(root, "cache"@)
        &&& self.out@ == joined(root, "out"@)
    }

    /// The workspace of a question set under a slot.
    pub fn locate(worker_dir: &str, slot: u8, question_no: &str) -> (ws: Workspace)
        ensures
            ws.is_at(workspace_root(worker_dir@, slot as nat, question_no@)),
    {
        let slot_dir = join(worker_dir, slot_directory_name(slot).as_str());
        let root = join(slot_dir.as_str(), question_no);
        let output = join(root.as_str(), "output");
        Workspace {
            test: join(root.as_str(), "test"),
            output_file: join(output.as_str(), "output.json"),
            output,
            cache: join(root.as_str(), "cache"),
            out: join(root.as_str(), "out"),
            root,
        }
    }
}

/// The index just behind the last slash of a path, or 0 where it has none.
pub open spec fn after_last_slash(path: Seq<char>) -> int
    decreases path.len(),
{
    if path.len() == 0 {
        0
    } else if path.last() == '/' {
        path.len() as int
    } else {
        after_last_slash(path.drop_last())
    }
}

/// The directory that a path lies in: the path up to its last slash; empty
/// where the path has no slash.
pub open spec fn parent_of(path: Seq<char>) -> Seq<char> {
    if after_last_slash(path) == 0 {
        Seq::empty()
    } else {
        path.subrange(0, after_last_slash(path) - 1)
    }
}

/// Finds the directory that a path lies in.
pub fn parent(path: &str) -> (dir: String)
    ensures
        dir@ == parent_of(path@),
{
    let v = chars_of(path);
    let mut j: usize = v.len();
    proof {
        assert(v@.subrange(0, v.len() as int) == v@);
    }
    while j > 0 && v[j - 1] != '/'
        invariant
            j <= v.len(),
            after_last_slash(v@) == after_last_slash(v@.subrange(0, j as int)),
        decreases j,
    {
        proof {
            assert(v@.subrange(0, j as int).drop_last() == v@.subrange(0, j as int - 1));
        }
        j -= 1;
    }
    if j == 0 {
        proof {
            assert(v@.subrange(0, 0).len() == 0);
        }
        String::new()
    } else {
        text_of_range(&v, 0, j - 1)
    }
}

/// One file to write into a workspace.
#[derive(Debug)]
pub struct PlannedFile {
    /// Where the file goes.
    pub path: String,
    /// The directory to make for it.
    pub directory: String,
    /// What it holds.
    pub content: String,
}

impl View for PlannedFile {
    type V = (Seq<char>, Seq<char>, Seq<char>);

    open spec fn view(&self) -> (Seq<char>, Seq<char>, Seq<char>) {
        (self.path@, self.directory@, self.content@)
    }
}

/// The file to write for a submitted file: it goes below the workspace at
/// the path that the job gives it.
pub open spec fn planned(root: Seq<char>, file: (Seq<char>, Seq<char>)) -> (
    Seq<char>,
    Seq<char>,
    Seq<char>,
) {
    (joined(root, file.0), parent_of(joined(root, file.0)), file.1)
}

/// The files to write for a job, in the order of the job.
pub open spec fn planned_files(root: Seq<char>, files: Seq<(Seq<char>, Seq<char>)>) -> Seq<
    (Seq<char>, Seq<char>, Seq<char>),
> {
    files.map_values(|f: (Seq<char>, Seq<char>)| planned(root, f))
}

/// Whether a path steps up to the parent directory at index `i`: a component
/// made of two dots begins there.
pub open spec fn climbs_at(path: Seq<char>, i: int) -> bool {
    &&& 0 <= i
    &&& i + 2 <= path.len()
    &&& path[i] == '.'
    &&& path[i + 1] == '.'
    &&& (i == 0 || path[i - 1] == '/')
    &&& (i + 2 == path.len() || path[i + 2] == '/')
}

/// Whether a relative path stays below the directory it is taken from: none
/// of its components steps up to the parent directory.
pub open spec fn stays_below(path: Seq<char>) -> bool {
    forall|i: int| !climbs_at(path, i)
}

/// Whether a path lies below a directory: it begins with the directory and a
/// slash, and what follows stays below.
pub open spec fn lies_below(dir: Seq<char>, path: Seq<char>) -> bool {
    (dir + seq!['/']).is_prefix_of(path) && stays_below(
        path.subrange(dir.len() as int + 1, path.len() as int),
    )
}

/// Whether the paths of a job stay below its slot's directory: neither its
/// question set nor the path of any of its files steps up to a parent
/// directory.
pub open spec fn job_stays_below(job: JobModel) -> bool {
    stays_below(job.question_no) && forall|k: int|
        0 <= k < job.path_with_content.len() ==> stays_below(
            (#[trigger] job.path_with_content[k]).0,
        )
}

/// The detail of the error for a job whose paths leave its workspace.
pub open spec fn leaving_detail() -> Seq<char> {
    "Data err(path leaves the workspace)"@
}

/// Tells whether a relative path stays below the directory it is taken
/// from.
pub fn path_stays_below(path: &str) -> (b: bool)
    ensures
        b == stays_below(path@),
{
    let v = chars_of(path);
    let n = v.len();
    let mut i: usize = 0;
    while i < n
        invariant
            i <= n,
            n == v.len(),
            v@ == path@,
            forall|j: int| j < i ==> !climbs_at(v@, j),
        decreases n - i,
    {
        if n - i >= 2 && v[i] == '.' && v[i + 1] == '.' && (i == 0 || v[i - 1] == '/') && (i + 2 == n
            || v[i + 2] == '/') {
            assert(climbs_at(v@, i as int));
            return false;
        }
        assert(!climbs_at(v@, i as int));
        i += 1;
    }
    assert forall|j: int| !climbs_at(v@, j) by {
        if j >= n {
            assert(!climbs_at(v@, j));
        }
    }
    true
}

/// Plans the files of a job in the workspace of its question set under the
/// slot `worker_num`. A job without files is refused, and so is one whose
/// question set or file paths step up to a parent directory: its files
/// would not stay in the slot's workspace.
pub fn create_files_as_job_message(job: &JobMessage, worker_num: u8, worker_dir: &str) -> (r: Result<
    Vec<PlannedFile>,
    ErrorCode,
>)
    ensures
        match r {
            Ok(plan) => job@.path_with_content.len() > 0 && job_stays_below(job@) && views(plan@)
                == planned_files(
                workspace_root(worker_dir@, worker_num as nat, job@.question_no),
                job@.path_with_content,
            ),
            Err(ErrorCode::EmptyFile) => job@.path_with_content.len() == 0,
            Err(ErrorCode::DataError(detail)) => job@.path_with_content.len() > 0
                && !job_stays_below(job@) && detail@ == leaving_detail(),
            Err(_) => false,
        },
{
    if job.path_with_content.len() == 0 {
        return Err(ErrorCode::EmptyFile);
    }
    if !path_stays_below(job.question_no.as_str()) {
        return Err(ErrorCode::DataError(String::from_str("Data err(path leaves the workspace)")));
    }
    let ws = Workspace::locate(worker_dir, worker_num, job.question_no.as_str());
    let ghost root = workspace_root(worker_dir@, worker_num as nat, job@.question_no);
    let mut plan: Vec<PlannedFile> = Vec::new();
    let mut i: usize = 0;
    while i < job.path_with_content.len()
        invariant
            i <= job.path_with_content.len(),
            ws.root@ == root,
            plan.len() == i,
            forall|j: int|
                0 <= j < i ==> (#[trigger] plan@[j])@ == planned(root, job.path_with_content@[j]@),
            forall|j: int| 0 <= j < i ==> stays_below((#[trigger] job@.path_with_content[j]).0),
        decreases job.path_with_content.len() - i,
    {
        let file = &job.path_with_content[i];
        assert(job@.path_with_content[i as int].0 == file.path@);
        if !path_stays_below(file.path.as_str()) {
            return Err(
                ErrorCode::DataError(String::from_str("Data err(path leaves the workspace)")),
            );
        }
        let path = join(ws.root.as_str(), file.path.as_str());
        let directory = parent(path.as_str());
        plan.push(PlannedFile { path, directory, content: file.content.clone() });
        i += 1;
    }
    proof {
        assert(views(plan@) =~= planned_files(root, job@.path_with_content));
    }
    Ok(plan)
}

/// A path that stays below, taken from a directory that stays below, stays
/// below.
pub proof fn lemma_joined_stays_below(dir: Seq<char>, within: Seq<char>)
    requires
        stays_below(dir),
        stays_below(within),
    ensures
        stays_below(joined(dir, within)),
{
    let path = joined(dir, within);
    let n = dir.len() as int;
    assert forall|i: int| !climbs_at(path, i) by {
        if climbs_at(path, i) {
            if i + 2 <= n {
                assert(path[i] == dir[i] && path[i + 1] == dir[i + 1]);
                if i > 0 {
                    assert(path[i - 1] == dir[i - 1]);
                }
                if i + 2 < n {
                    assert(path[i + 2] == dir[i + 2]);
                }
                assert(climbs_at(dir, i));
            } else if i <= n {
                assert(path[n] == '/');
            } else {
                let j = i - n - 1;
                assert(path[i] == within[j] && path[i + 1] == within[j + 1]);
                if j > 0 {
                    assert(path[i - 1] == within[j - 1]);
                }
                if j + 2 < within.len() {
                    assert(path[i + 2] == within[j + 2]);
                }
                assert(climbs_at(within, j));
            }
        }
    }
}

/// Workspace isolation: every file planned for a job whose paths stay below
/// lies below the workspace it was planned for, with no step up to a parent
/// directory on the way. This speaks of the path alone: a link that some
/// directory below the workspace holds may still lead elsewhere.
pub proof fn lemma_plan_stays_in_workspace(
    root: Seq<char>,
    files: Seq<(Seq<char>, Seq<char>)>,
    i: int,
)
    requires
        0 <= i < files.len(),
        stays_below(files[i].0),
    ensures
        lies_below(root, planned_files(root, files)[i].0),
{
    let path = planned_files(root, files)[i].0;
    assert(path == joined(root, files[i].0));
    assert(path.subrange(0, (root + seq!['/']).len() as int) =~= root + seq!['/']);
    assert(path.subrange(root.len() as int + 1, path.len() as int) =~= files[i].0);
}

/// The name of a slot's directory is made of two or three digits, which
/// tell the slot.
proof fn lemma_slot_name_digits(slot: nat)
    requires
        slot < 256,
    ensures
        slot < 100 ==> slot_name(slot) =~= seq![
            digit_char((slot / 10) as int),
            digit_char((slot % 10) as int),
        ],
        slot >= 100 ==> slot_name(slot) =~= seq![
            digit_char((slot / 100) as int),
            digit_char((slot / 10 % 10) as int),
            digit_char((slot % 10) as int),
        ],
{
    reveal_with_fuel(decimal_nat, 3);
}

/// The characters of digits differ where the digits do, and none is a slash.
proof fn lemma_digit_chars(a: int, b: int)
    requires
        0 <= a <= 9,
        0 <= b <= 9,
    ensures
        digit_char(a) != '/',
        a != b ==> digit_char(a) != digit_char(b),
{
    assert(digit_char(a) as u32 == 0x30 + a);
    assert(digit_char(b) as u32 == 0x30 + b);
    assert('/' as u32 == 0x2f);
}

/// The directory of a slot under the workers' directory.
pub open spec fn slot_directory(worker_dir: Seq<char>, slot: nat) -> Seq<char> {
    joined(worker_dir, slot_name(slot))
}

/// A path planned for a job whose question set and file path stay below lies
/// below the directory of the slot, with no step up to a parent directory
/// on the way.
pub proof fn lemma_planned_path_lies_below_slot(
    worker_dir: Seq<char>,
    slot: nat,
    question_no: Seq<char>,
    file: Seq<char>,
)
    requires
        stays_below(question_no),
        stays_below(file),
    ensures
        lies_below(
            slot_directory(worker_dir, slot),
            joined(workspace_root(worker_dir, slot, question_no), file),
        ),
{
    let path = joined(workspace_root(worker_dir, slot, question_no), file);
    let dir = slot_directory(worker_dir, slot);
    lemma_joined_stays_below(question_no, file);
    assert(path.subrange(0, dir.len() as int + 1) =~= dir + seq!['/']);
    assert(path.subrange(dir.len() as int + 1, path.len() as int) =~= joined(question_no, file));
}

/// No two slots touch the same path: a path planned for a job whose question
/// set and file path stay below lies below the directory of its own slot,
/// with no step up to a parent directory on the way, and does not lie below
/// the directory of any other slot under the same workers' directory; so it
/// is none of the paths that are planned for another slot. This speaks of
/// the paths alone: a link that some directory below a slot holds may still
/// lead elsewhere.
pub proof fn lemma_slots_are_apart(
    worker_dir: Seq<char>,
    a: nat,
    b: nat,
    question_a: Seq<char>,
    question_b: Seq<char>,
    file_a: Seq<char>,
    file_b: Seq<char>,
)
    requires
        a != b,
        a < 256,
        b < 256,
        stays_below(question_a),
        stays_below(file_a),
    ensures
        lies_below(
            slot_directory(worker_dir, a),
            joined(workspace_root(worker_dir, a, question_a), file_a),
        ),
        !(slot_directory(worker_dir, b) + seq!['/']).is_prefix_of(
            joined(workspace_root(worker_dir, a, question_a), file_a),
        ),
        joined(workspace_root(worker_dir, a, question_a), file_a) != joined(
            workspace_root(worker_dir, b, question_b),
            file_b,
        ),
{
    let pa = joined(workspace_root(worker_dir, a, question_a), file_a);
    let pb = joined(workspace_root(worker_dir, b, question_b), file_b);
    let db = slot_directory(worker_dir, b) + seq!['/'];
    let n = worker_dir.len() as int + 1;
    lemma_slot_name_digits(a);
    lemma_slot_name_digits(b);
    let na = slot_name(a);
    let nb = slot_name(b);
    assert forall|k: int| 0 <= k < na.len() implies pa[n + k] == na[k] by {}
    assert forall|k: int| 0 <= k < nb.len() implies pb[n + k] == nb[k] && db[n + k] == nb[k] by {}
    assert(pa[n + na.len()] == '/');
    assert(pb[n + nb.len()] == '/');
    assert(db[n + nb.len()] == '/');
    assert(db.len() == n + nb.len() + 1);
    assert(pa.len() >= n + na.len() + 1);
    lemma_digit_chars((a / 10) as int % 10, (b / 10) as int % 10);
    lemma_digit_chars((a % 10) as int, (b % 10) as int);
    lemma_digit_chars((a / 100) as int, (b / 100) as int);
    let k: int = if na.len() != nb.len() {
        2
    } else if a < 100 {
        if a / 10 != b / 10 {
            0
        } else {
            1
        }
    } else {
        if a / 100 != b / 100 {
            0
        } else if a / 10 % 10 != b / 10 % 10 {
            1
        } else {
            2
        }
    };
    assert(pa[n + k] != pb[n + k]);
    assert(db[n + k] == pb[n + k]);
    if db.is_prefix_of(pa) {
        assert(pa.subrange(0, db.len() as int)[n + k] == pa[n + k]);
    }
    lemma_planned_path_lies_below_slot(worker_dir, a, question_a, file_a);
}

} // verus!
