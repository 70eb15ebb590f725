//! The artifact cache manager: the cache file that a workspace gets on first
//! use, made from a template, and the template itself, merged once from the
//! cache manifests of the builds of each compiler version.

use vstd::prelude::*;
use vstd::string::*;
use crate::json::{
    copy_json, copy_members, find_member, json_parsed, json_pretty_text, json_text,
    lemma_json_view, member_views, set_member, Json, JsonModel, Member,
};
use crate::keyed::{lemma_with_entry_lookup, value_of, with_entry};
use crate::views::{opt_text, texts};
use crate::workspace::{join, joined};

verus! {

/// Where the template lies, from which the cache file of a workspace is
/// made.
pub const TEMPLATE_FILE: &'static str = "cache/example-cache.json";

/// Where a build of the bootstrap library leaves its cache manifest.
pub const MANIFEST_FILE: &'static str = "cache/solidity-files-cache.json";

/// The sources of the bootstrap library.
pub const BOOTSTRAP_SOURCES: &'static str = "lib/forge-std/src";

/// Where a build of the bootstrap library puts its artifacts.
pub const BOOTSTRAP_OUT: &'static str = "tmp_out";

/// The arguments of a build of the bootstrap library with one compiler
/// version.
pub open spec fn bootstrap_arguments_of(version: Seq<char>) -> Seq<Seq<char>> {
    seq![
        "build"@,
        "--contracts"@,
        BOOTSTRAP_SOURCES@,
        "--out"@,
        BOOTSTRAP_OUT@,
        "--use"@,
        version,
    ]
}

/// Makes the arguments of a build of the bootstrap library.
pub fn bootstrap_arguments(version: &str) -> (args: Vec<String>)
    ensures
        texts(args@) == bootstrap_arguments_of(version@),
{
    let mut args: Vec<String> = Vec::new();
    args.push(String::from_str("build"));
    args.push(String::from_str("--contracts"));
    args.push(String::from_str(BOOTSTRAP_SOURCES));
    args.push(String::from_str("--out"));
    args.push(String::from_str(BOOTSTRAP_OUT));
    args.push(String::from_str("--use"));
    args.push(String::from_str(version));
    assert(texts(args@) =~= bootstrap_arguments_of(version@));
    args
}

/// The compiler versions that a template is made for, the first being the
/// one whose manifest the template starts from.
pub open spec fn supported_versions() -> Seq<Seq<char>> {
    seq!["0.8.20"@, "0.8.21"@, "0.8.22"@, "0.8.23"@]
}

/// The compiler versions that a template is made for.
pub fn versions() -> (v: Vec<String>)
    ensures
        texts(v@) == supported_versions(),
{
    let mut v: Vec<String> = Vec::new();
    v.push(String::from_str("0.8.20"));
    v.push(String::from_str("0.8.21"));
    v.push(String::from_str("0.8.22"));
    v.push(String::from_str("0.8.23"));
    assert(texts(v@) =~= supported_versions());
    v
}

/// The members of an object; none for another document or for none.
pub open spec fn members_of(o: Option<JsonModel>) -> Seq<(Seq<char>, JsonModel)> {
    match o {
        Some(JsonModel::Object(members)) => members,
        _ => Seq::empty(),
    }
}

/// The view of an optional reference to a document.
pub open spec fn opt_ref_json(o: Option<&Json>) -> Option<JsonModel> {
    match o {
        Some(j) => Some(j@),
        None => None,
    }
}

/// A copy of the members of an object; none for another document.
pub fn members_copy(o: Option<&Json>) -> (r: Vec<Member>)
    ensures
        member_views(r@) == members_of(opt_ref_json(o)),
{
    match o {
        Some(j) => {
            proof {
                lemma_json_view(*j);
            }
            match j {
                Json::Object(members) => copy_members(members),
                _ => {
                    let r: Vec<Member> = Vec::new();
                    assert(member_views(r@) =~= Seq::empty());
                    r
                },
            }
        },
        None => {
            let r: Vec<Member> = Vec::new();
            assert(member_views(r@) =~= Seq::empty());
            r
        },
    }
}

/// Makes the object of some members.
pub fn object_of(members: Vec<Member>) -> (r: Json)
    ensures
        r@ == JsonModel::Object(member_views(members@)),
{
    let r = Json::Object(members);
    proof {
        lemma_json_view(r);
    }
    r
}

/// The paths of a workspace's cache file: the artifacts and the build
/// information go below `out`, the sources are the workspace, and the tests
/// lie in `test`. Other paths stay.
pub open spec fn rewritten_paths(
    paths: Seq<(Seq<char>, JsonModel)>,
    root: Seq<char>,
    out: Seq<char>,
) -> Seq<(Seq<char>, JsonModel)> {
    with_entry(
        with_entry(
            with_entry(
                with_entry(paths, "artifacts"@, JsonModel::Text(out)),
                "build_infos"@,
                JsonModel::Text(joined(out, "build-info"@)),
            ),
            "sources"@,
            JsonModel::Text(root),
        ),
        "tests"@,
        JsonModel::Text("test"@),
    )
}

/// The cache file of a workspace: the template, its `paths` rewritten for
/// the workspace. A template that is no object is left as it is.
pub open spec fn rewritten_template(template: JsonModel, root: Seq<char>, out: Seq<char>) -> JsonModel {
    template.with_member(
        "paths"@,
        JsonModel::Object(rewritten_paths(members_of(template.member("paths"@)), root, out)),
    )
}

/// Makes the cache file of a workspace from the template.
pub fn rewrite_template(template: Json, root: &str, out: &str) -> (r: Json)
    ensures
        r@ == rewritten_template(template@, root@, out@),
{
    let mut paths = members_copy(template.get("paths"));
    set_member(&mut paths, "artifacts", Json::text(out));
    set_member(&mut paths, "build_infos", Json::Text(join(out, "build-info")));
    set_member(&mut paths, "sources", Json::text(root));
    set_member(&mut paths, "tests", Json::text("test"));
    template.with_member("paths", object_of(paths))
}

/// The cache file of a workspace points at the workspace: its artifacts and
/// build information lie below `out`, its sources are the workspace, its
/// tests lie in `test`; and whatever else the template holds is kept.
pub proof fn lemma_cache_file_points_at_workspace(
    template: JsonModel,
    root: Seq<char>,
    out: Seq<char>,
    other: Seq<char>,
)
    requires
        template is Object,
    ensures
        ({
            let paths = rewritten_template(template, root, out).member("paths"@);
            &&& paths matches Some(p) && p.member("artifacts"@) == Some(JsonModel::Text(out))
                && p.member("build_infos"@) == Some(JsonModel::Text(joined(out, "build-info"@)))
                && p.member("sources"@) == Some(JsonModel::Text(root)) && p.member("tests"@)
                == Some(JsonModel::Text("test"@))
            &&& other != "paths"@ ==> rewritten_template(template, root, out).member(other)
                == template.member(other)
        }),
{
    reveal_strlit("artifacts");
    reveal_strlit("build_infos");
    reveal_strlit("sources");
    reveal_strlit("tests");
    assert("artifacts"@[0] == 'a' && "build_infos"@[0] == 'b' && "sources"@[0] == 's' && "tests"@[0]
        == 't');
    let paths0 = members_of(template.member("paths"@));
    let paths1 = with_entry(paths0, "artifacts"@, JsonModel::Text(out));
    let paths2 = with_entry(paths1, "build_infos"@, JsonModel::Text(joined(out, "build-info"@)));
    let paths3 = with_entry(paths2, "sources"@, JsonModel::Text(root));
    let paths4 = with_entry(paths3, "tests"@, JsonModel::Text("test"@));
    lemma_with_entry_lookup(paths0, "artifacts"@, JsonModel::Text(out), "artifacts"@);
    lemma_with_entry_lookup(
        paths1,
        "build_infos"@,
        JsonModel::Text(joined(out, "build-info"@)),
        "artifacts"@,
    );
    lemma_with_entry_lookup(paths2, "sources"@, JsonModel::Text(root), "artifacts"@);
    lemma_with_entry_lookup(paths2, "sources"@, JsonModel::Text(root), "build_infos"@);
    lemma_with_entry_lookup(paths3, "tests"@, JsonModel::Text("test"@), "artifacts"@);
    lemma_with_entry_lookup(paths3, "tests"@, JsonModel::Text("test"@), "build_infos"@);
    lemma_with_entry_lookup(paths3, "tests"@, JsonModel::Text("test"@), "sources"@);
    lemma_with_entry_lookup(
        template->Object_0,
        "paths"@,
        JsonModel::Object(rewritten_paths(paths0, root, out)),
        other,
    );
}

/// The text of the cache file of a workspace, made from the text of the
/// template; `None` where the template is no JSON.
pub open spec fn cache_file_text(template: Seq<char>, root: Seq<char>, out: Seq<char>) -> Option<
    Seq<char>,
> {
    match json_parsed(template) {
        Ok(doc) => Some(json_text(rewritten_template(doc, root, out))),
        Err(_) => None,
    }
}

/// Makes the text of the cache file of a workspace from that of the
/// template. Where the template is no JSON the workspace goes without.
pub fn prepare_cache_file(template: &str, root: &str, out: &str) -> (r: Option<String>)
    ensures
        opt_text(r) == cache_file_text(template@, root@, out@),
{
    match Json::from_text(template) {
        Ok(doc) => Some(rewrite_template(doc, root, out).to_text()),
        Err(_) => None,
    }
}

/// Whether a source file is one of a library.
pub open spec fn is_library(name: Seq<char>) -> bool {
    "lib"@.is_prefix_of(name)
}

/// Tells whether a source file is one of a library.
pub fn starts_with_lib(name: &str) -> (b: bool)
    ensures
        b == is_library(name@),
{
    proof {
        reveal_strlit("lib");
    }
    assert("lib"@.len() == 3);
    assert("lib"@[0] == 'l' && "lib"@[1] == 'i' && "lib"@[2] == 'b');
    if name.unicode_len() < 3 {
        return false;
    }
    let b = name.get_char(0) == 'l' && name.get_char(1) == 'i' && name.get_char(2) == 'b';
    proof {
        let head = name@.subrange(0, 3);
        assert(head[0] == name@[0] && head[1] == name@[1] && head[2] == name@[2]);
        if b {
            assert(head =~= "lib"@);
        } else {
            assert(head != "lib"@);
        }
    }
    b
}

/// An artifact location under the directory of a compiler version.
pub open spec fn tagged_location(location: JsonModel, version: Seq<char>) -> JsonModel {
    match location {
        JsonModel::Text(path) => JsonModel::Text(joined(version, path)),
        other => other,
    }
}

/// The locations of an artifact, each under the directory of the version.
pub open spec fn tagged_locations(locations: Seq<(Seq<char>, JsonModel)>, version: Seq<char>) -> Seq<
    (Seq<char>, JsonModel),
> {
    locations.map_values(|e: (Seq<char>, JsonModel)| (e.0, tagged_location(e.1, version)))
}

/// The locations of an artifact as a document, each under the directory of
/// the version.
pub open spec fn tagged_artifact(artifact: JsonModel, version: Seq<char>) -> JsonModel {
    match artifact {
        JsonModel::Object(locations) => JsonModel::Object(tagged_locations(locations, version)),
        other => other,
    }
}

/// The artifacts of a source file, their locations under the directory of
/// the version.
pub open spec fn tagged_artifacts(artifacts: Seq<(Seq<char>, JsonModel)>, version: Seq<char>) -> Seq<
    (Seq<char>, JsonModel),
> {
    artifacts.map_values(|e: (Seq<char>, JsonModel)| (e.0, tagged_artifact(e.1, version)))
}

/// A source file's entry, the locations of its artifacts under the
/// directory of the version.
pub open spec fn tagged_file(file: JsonModel, version: Seq<char>) -> JsonModel {
    match file.member("artifacts"@) {
        Some(JsonModel::Object(artifacts)) => file.with_member(
            "artifacts"@,
            JsonModel::Object(tagged_artifacts(artifacts, version)),
        ),
        _ => file,
    }
}

/// The entries of the source files, those of libraries tagged with the
/// version.
pub open spec fn tagged_files(files: Seq<(Seq<char>, JsonModel)>, version: Seq<char>) -> Seq<
    (Seq<char>, JsonModel),
> {
    files.map_values(
        |e: (Seq<char>, JsonModel)|
            (
                e.0,
                if is_library(e.0) {
                    tagged_file(e.1, version)
                } else {
                    e.1
                },
            ),
    )
}

/// The template that the manifest of the first version starts: its source
/// path is left to be filled in, and the artifacts of its library files are
/// looked for under the directory of the version.
pub open spec fn first_template(manifest: JsonModel, version: Seq<char>) -> JsonModel {
    let marked = manifest.with_member(
        "paths"@,
        JsonModel::Object(
            with_entry(members_of(manifest.member("paths"@)), "sources"@, JsonModel::Text("fixme"@)),
        ),
    );
    match marked.member("files"@) {
        Some(JsonModel::Object(files)) => marked.with_member(
            "files"@,
            JsonModel::Object(tagged_files(files, version)),
        ),
        _ => marked,
    }
}

/// Tags the locations of an artifact with a version.
pub fn tag_locations(locations: &Vec<Member>, version: &str) -> (r: Vec<Member>)
    ensures
        member_views(r@) == tagged_locations(member_views(locations@), version@),
{
    let mut r: Vec<Member> = Vec::new();
    let mut i: usize = 0;
    while i < locations.len()
        invariant
            i <= locations.len(),
            r.len() == i,
            forall|j: int|
                0 <= j < i ==> (#[trigger] r@[j]).name@ == locations@[j].name@ && r@[j].value@
                    == tagged_location(locations@[j].value@, version@),
        decreases locations.len() - i,
    {
        let value = match &locations[i].value {
            Json::Text(path) => Json::Text(join(version, path.as_str())),
            other => copy_json(other),
        };
        r.push(Member { name: locations[i].name.clone(), value });
        i += 1;
    }
    proof {
        assert(member_views(r@) =~= tagged_locations(member_views(locations@), version@));
    }
    r
}

/// Tags the artifacts of a source file with a version.
pub fn tag_artifacts(artifacts: &Vec<Member>, version: &str) -> (r: Vec<Member>)
    ensures
        member_views(r@) == tagged_artifacts(member_views(artifacts@), version@),
{
    let mut r: Vec<Member> = Vec::new();
    let mut i: usize = 0;
    while i < artifacts.len()
        invariant
            i <= artifacts.len(),
            r.len() == i,
            forall|j: int|
                0 <= j < i ==> (#[trigger] r@[j]).name@ == artifacts@[j].name@ && r@[j].value@
                    == tagged_artifact(artifacts@[j].value@, version@),
        decreases artifacts.len() - i,
    {
        proof {
            lemma_json_view(artifacts@[i as int].value);
        }
        let value = match &artifacts[i].value {
            Json::Object(locations) => object_of(tag_locations(locations, version)),
            other => copy_json(other),
        };
        r.push(Member { name: artifacts[i].name.clone(), value });
        i += 1;
    }
    proof {
        assert(member_views(r@) =~= tagged_artifacts(member_views(artifacts@), version@));
    }
    r
}

/// Tags a source file's entry with a version.
pub fn tag_file(file: &Json, version: &str) -> (r: Json)
    ensures
        r@ == tagged_file(file@, version@),
{
    match file.get("artifacts") {
        Some(found) => {
            proof {
                lemma_json_view(*found);
            }
            match found {
                Json::Object(artifacts) => copy_json(file).with_member(
                    "artifacts",
                    object_of(tag_artifacts(artifacts, version)),
                ),
                _ => copy_json(file),
            }
        },
        None => copy_json(file),
    }
}

/// Tags the entries of the library files with a version.
pub fn tag_files(files: &Vec<Member>, version: &str) -> (r: Vec<Member>)
    ensures
        member_views(r@) == tagged_files(member_views(files@), version@),
{
    let mut r: Vec<Member> = Vec::new();
    let mut i: usize = 0;
    while i < files.len()
        invariant
            i <= files.len(),
            r.len() == i,
            forall|j: int|
                0 <= j < i ==> (#[trigger] r@[j]).name@ == files@[j].name@ && r@[j].value@ == (
                if is_library(files@[j].name@) {
                    tagged_file(files@[j].value@, version@)
                } else {
                    files@[j].value@
                }),
        decreases files.len() - i,
    {
        let value = if starts_with_lib(files[i].name.as_str()) {
            tag_file(&files[i].value, version)
        } else {
            copy_json(&files[i].value)
        };
        r.push(Member { name: files[i].name.clone(), value });
        i += 1;
    }
    proof {
        assert(member_views(r@) =~= tagged_files(member_views(files@), version@));
    }
    r
}

/// Starts the template from the manifest of the first version.
pub fn start_template(manifest: Json, version: &str) -> (r: Json)
    ensures
        r@ == first_template(manifest@, version@),
{
    let mut paths = members_copy(manifest.get("paths"));
    set_member(&mut paths, "sources", Json::text("fixme"));
    let marked = manifest.with_member("paths", object_of(paths));
    let tagged = match marked.get("files") {
        Some(found) => {
            proof {
                lemma_json_view(*found);
            }
            match found {
                Json::Object(files) => Some(tag_files(files, version)),
                _ => None,
            }
        },
        None => None,
    };
    match tagged {
        Some(files) => marked.with_member("files", object_of(files)),
        None => marked,
    }
}

/// The locations of an artifact once those of another version have joined
/// them, each under the directory of that version.
pub open spec fn merged_locations(
    existing: Seq<(Seq<char>, JsonModel)>,
    incoming: Seq<(Seq<char>, JsonModel)>,
    version: Seq<char>,
) -> Seq<(Seq<char>, JsonModel)>
    decreases incoming.len(),
{
    if incoming.len() == 0 {
        existing
    } else {
        let earlier = merged_locations(existing, incoming.drop_last(), version);
        match incoming.last().1 {
            JsonModel::Text(path) => with_entry(
                earlier,
                incoming.last().0,
                JsonModel::Text(joined(version, path)),
            ),
            _ => earlier,
        }
    }
}

/// The artifacts of a source file once those of another version have joined
/// them. An artifact of which no location is known gets no entry.
pub open spec fn merged_artifacts(
    existing: Seq<(Seq<char>, JsonModel)>,
    incoming: Seq<(Seq<char>, JsonModel)>,
    version: Seq<char>,
) -> Seq<(Seq<char>, JsonModel)>
    decreases incoming.len(),
{
    if incoming.len() == 0 {
        existing
    } else {
        let earlier = merged_artifacts(existing, incoming.drop_last(), version);
        match incoming.last().1 {
            JsonModel::Object(locations) => {
                let merged = merged_locations(
                    members_of(value_of(earlier, incoming.last().0)),
                    locations,
                    version,
                );
                if merged.len() == 0 {
                    earlier
                } else {
                    with_entry(earlier, incoming.last().0, JsonModel::Object(merged))
                }
            },
            _ => earlier,
        }
    }
}

/// The entries of the source files once those of another version's manifest
/// have joined them: for each file of the manifest that has artifacts, the
/// template's entry of that file takes them in. A file of which no artifact
/// is known gets no entry.
pub open spec fn merged_files(
    existing: Seq<(Seq<char>, JsonModel)>,
    incoming: Seq<(Seq<char>, JsonModel)>,
    version: Seq<char>,
) -> Seq<(Seq<char>, JsonModel)>
    decreases incoming.len(),
{
    if incoming.len() == 0 {
        existing
    } else {
        let earlier = merged_files(existing, incoming.drop_last(), version);
        match incoming.last().1.member("artifacts"@) {
            Some(JsonModel::Object(artifacts)) => {
                let entry = members_of(value_of(earlier, incoming.last().0));
                let merged = merged_artifacts(
                    members_of(value_of(entry, "artifacts"@)),
                    artifacts,
                    version,
                );
                if merged.len() == 0 {
                    earlier
                } else {
                    with_entry(
                        earlier,
                        incoming.last().0,
                        JsonModel::Object(with_entry(entry, "artifacts"@, JsonModel::Object(merged))),
                    )
                }
            },
            _ => earlier,
        }
    }
}

/// The template once the manifest of another version has joined it. A
/// manifest without files changes nothing.
pub open spec fn merged_template(
    template: JsonModel,
    manifest: JsonModel,
    version: Seq<char>,
) -> JsonModel {
    match manifest.member("files"@) {
        Some(JsonModel::Object(files)) => template.with_member(
            "files"@,
            JsonModel::Object(merged_files(members_of(template.member("files"@)), files, version)),
        ),
        _ => template,
    }
}

/// A copy of the members of the entry called `name`; none where there is no
/// such entry or it is no object.
pub fn entry_members(members: &Vec<Member>, name: &str) -> (r: Vec<Member>)
    ensures
        member_views(r@) == members_of(value_of(member_views(members@), name@)),
{
    let i = find_member(members, name);
    if i < members.len() {
        members_copy(Some(&members[i].value))
    } else {
        members_copy(None)
    }
}

/// Merges the locations of another version into those of an artifact.
pub fn merge_locations(existing: Vec<Member>, incoming: &Vec<Member>, version: &str) -> (r: Vec<
    Member,
>)
    ensures
        member_views(r@) == merged_locations(
            member_views(existing@),
            member_views(incoming@),
            version@,
        ),
{
    let ghost start = member_views(existing@);
    let mut r = existing;
    let mut i: usize = 0;
    proof {
        assert(member_views(incoming@).subrange(0, 0) =~= Seq::empty());
    }
    while i < incoming.len()
        invariant
            i <= incoming.len(),
            member_views(r@) == merged_locations(
                start,
                member_views(incoming@).subrange(0, i as int),
                version@,
            ),
        decreases incoming.len() - i,
    {
        let ghost before = member_views(incoming@).subrange(0, i as int);
        let ghost after = member_views(incoming@).subrange(0, i as int + 1);
        proof {
            assert(after.drop_last() == before);
            assert(after.last() == (incoming@[i as int].name@, incoming@[i as int].value@));
        }
        match &incoming[i].value {
            Json::Text(path) => {
                set_member(
                    &mut r,
                    incoming[i].name.as_str(),
                    Json::Text(join(version, path.as_str())),
                );
            },
            _ => {},
        }
        i += 1;
    }
    proof {
        assert(member_views(incoming@).subrange(0, incoming.len() as int) == member_views(
            incoming@,
        ));
    }
    r
}

/// Merges the artifacts of another version into those of a source file.
pub fn merge_artifacts(existing: Vec<Member>, incoming: &Vec<Member>, version: &str) -> (r: Vec<
    Member,
>)
    ensures
        member_views(r@) == merged_artifacts(
            member_views(existing@),
            member_views(incoming@),
            version@,
        ),
{
    let ghost start = member_views(existing@);
    let mut r = existing;
    let mut i: usize = 0;
    proof {
        assert(member_views(incoming@).subrange(0, 0) =~= Seq::empty());
    }
    while i < incoming.len()
        invariant
            i <= incoming.len(),
            member_views(r@) == merged_artifacts(
                start,
                member_views(incoming@).subrange(0, i as int),
                version@,
            ),
        decreases incoming.len() - i,
    {
        let ghost before = member_views(incoming@).subrange(0, i as int);
        let ghost after = member_views(incoming@).subrange(0, i as int + 1);
        proof {
            assert(after.drop_last() == before);
            assert(after.last() == (incoming@[i as int].name@, incoming@[i as int].value@));
            lemma_json_view(incoming@[i as int].value);
        }
        match &incoming[i].value {
            Json::Object(locations) => {
                let name = incoming[i].name.as_str();
                let merged = merge_locations(entry_members(&r, name), locations, version);
                if merged.len() > 0 {
                    set_member(&mut r, name, object_of(merged));
                }
            },
            _ => {},
        }
        i += 1;
    }
    proof {
        assert(member_views(incoming@).subrange(0, incoming.len() as int) == member_views(
            incoming@,
        ));
    }
    r
}

/// Merges the source files of another version's manifest into those of the
/// template.
pub fn merge_files(existing: Vec<Member>, incoming: &Vec<Member>, version: &str) -> (r: Vec<Member>)
    ensures
        member_views(r@) == merged_files(member_views(existing@), member_views(incoming@), version@),
{
    let ghost start = member_views(existing@);
    let mut r = existing;
    let mut i: usize = 0;
    proof {
        assert(member_views(incoming@).subrange(0, 0) =~= Seq::empty());
    }
    while i < incoming.len()
        invariant
            i <= incoming.len(),
            member_views(r@) == merged_files(
                start,
                member_views(incoming@).subrange(0, i as int),
                version@,
            ),
        decreases incoming.len() - i,
    {
        let ghost before = member_views(incoming@).subrange(0, i as int);
        let ghost after = member_views(incoming@).subrange(0, i as int + 1);
        proof {
            assert(after.drop_last() == before);
            assert(after.last() == (incoming@[i as int].name@, incoming@[i as int].value@));
        }
        match incoming[i].value.get("artifacts") {
            Some(found) => {
                proof {
                    lemma_json_view(*found);
                }
                match found {
                    Json::Object(artifacts) => {
                        let name = incoming[i].name.as_str();
                        let mut entry = entry_members(&r, name);
                        let merged = merge_artifacts(
                            entry_members(&entry, "artifacts"),
                            artifacts,
                            version,
                        );
                        if merged.len() > 0 {
                            set_member(&mut entry, "artifacts", object_of(merged));
                            set_member(&mut r, name, object_of(entry));
                        }
                    },
                    _ => {},
                }
            },
            None => {},
        }
        i += 1;
    }
    proof {
        assert(member_views(incoming@).subrange(0, incoming.len() as int) == member_views(
            incoming@,
        ));
    }
    r
}

/// Merges the manifest of another version into the template.
pub fn merge_version(template: Json, manifest: &Json, version: &str) -> (r: Json)
    ensures
        r@ == merged_template(template@, manifest@, version@),
{
    match manifest.get("files") {
        Some(found) => {
            proof {
                lemma_json_view(*found);
            }
            match found {
                Json::Object(files) => {
                    let merged = merge_files(members_copy(template.get("files")), files, version);
                    template.with_member("files", object_of(merged))
                },
                _ => template,
            }
        },
        None => template,
    }
}

/// The template made of the manifests of the builds of several versions, in
/// order: started from the first, the others merged into it. `None` where a
/// manifest is no JSON, or there is none.
pub open spec fn template_of(versions: Seq<Seq<char>>, manifests: Seq<Seq<char>>) -> Option<
    JsonModel,
>
    decreases manifests.len(),
{
    if manifests.len() == 0 || versions.len() != manifests.len() {
        None
    } else if manifests.len() == 1 {
        match json_parsed(manifests[0]) {
            Ok(manifest) => Some(first_template(manifest, versions[0])),
            Err(_) => None,
        }
    } else {
        match (
            template_of(versions.drop_last(), manifests.drop_last()),
            json_parsed(manifests.last()),
        ) {
            (Some(template), Ok(manifest)) => Some(
                merged_template(template, manifest, versions.last()),
            ),
            _ => None,
        }
    }
}

/// Where the manifests up to some point make no template, all of them make
/// none either.
proof fn lemma_template_of_prefix(versions: Seq<Seq<char>>, manifests: Seq<Seq<char>>, k: int)
    requires
        versions.len() == manifests.len(),
        1 <= k <= manifests.len(),
        template_of(versions.subrange(0, k), manifests.subrange(0, k)) is None,
    ensures
        template_of(versions, manifests) is None,
    decreases manifests.len() - k,
{
    if k == manifests.len() {
        assert(manifests.subrange(0, k) == manifests);
        assert(versions.subrange(0, k) == versions);
    } else {
        assert(manifests.subrange(0, k + 1).drop_last() == manifests.subrange(0, k));
        assert(versions.subrange(0, k + 1).drop_last() == versions.subrange(0, k));
        lemma_template_of_prefix(versions, manifests, k + 1);
    }
}

/// Makes the template from the cache manifests that the builds of the given
/// versions left, as indented text.
pub fn init_cache_file(versions: &Vec<String>, manifests: &Vec<String>) -> (r: Option<String>)
    ensures
        match r {
            Some(text) => match template_of(
                texts(versions@),
                texts(manifests@),
            ) {
                Some(template) => text@ == json_pretty_text(template),
                None => false,
            },
            None => template_of(texts(versions@), texts(manifests@))
                is None,
        },
{
    let ghost vs = texts(versions@);
    let ghost ms = texts(manifests@);
    if manifests.len() == 0 || versions.len() != manifests.len() {
        return None;
    }
    let mut template = match Json::from_text(manifests[0].as_str()) {
        Ok(manifest) => start_template(manifest, versions[0].as_str()),
        Err(_) => {
            proof {
                assert(ms.subrange(0, 1)[0] == ms[0]);
                assert(vs.subrange(0, 1)[0] == vs[0]);
                lemma_template_of_prefix(vs, ms, 1);
            }
            return None;
        },
    };
    let mut i: usize = 1;
    proof {
        assert(ms.subrange(0, 1)[0] == ms[0]);
        assert(vs.subrange(0, 1)[0] == vs[0]);
    }
    while i < manifests.len()
        invariant
            1 <= i <= manifests.len(),
            versions.len() == manifests.len(),
            vs == texts(versions@),
            ms == texts(manifests@),
            template_of(vs.subrange(0, i as int), ms.subrange(0, i as int)) == Some(template@),
        decreases manifests.len() - i,
    {
        proof {
            assert(ms.subrange(0, i as int + 1).drop_last() == ms.subrange(0, i as int));
            assert(vs.subrange(0, i as int + 1).drop_last() == vs.subrange(0, i as int));
            assert(ms.subrange(0, i as int + 1).last() == manifests@[i as int]@);
            assert(vs.subrange(0, i as int + 1).last() == versions@[i as int]@);
        }
        match Json::from_text(manifests[i].as_str()) {
            Ok(manifest) => {
                template = merge_version(template, &manifest, versions[i].as_str());
            },
            Err(_) => {
                proof {
                    lemma_template_of_prefix(vs, ms, i as int + 1);
                }
                return None;
            },
        }
        i += 1;
    }
    proof {
        assert(ms.subrange(0, manifests.len() as int) == ms);
        assert(vs.subrange(0, manifests.len() as int) == vs);
    }
    Some(template.to_pretty_text())
}

} // verus!
