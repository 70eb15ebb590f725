use foundry_judge::cache::{
    bootstrap_arguments, init_cache_file, merge_version, prepare_cache_file, rewrite_template, start_template,
    starts_with_lib, versions,
};
use foundry_judge::json::Json;

const MANIFEST_20: &str = "{\"_format\":\"hh-sol-cache-2\",\"paths\":{\"artifacts\":\"tmp_out\",\"build_infos\":\"tmp_out/build-info\",\"sources\":\"lib/forge-std/src\",\"tests\":\"test\",\"libraries\":[\"lib\"]},\"files\":{\"lib/forge-std/src/Base.sol\":{\"lastModificationDate\":1,\"artifacts\":{\"CommonBase\":{\"0.8.20+commit.a1b79de6\":\"Base.sol/CommonBase.json\"}}},\"src/Own.sol\":{\"artifacts\":{\"Own\":{\"0.8.20+commit.a1b79de6\":\"Own.sol/Own.json\"}}}}}";

const MANIFEST_21: &str = "{\"paths\":{\"sources\":\"lib/forge-std/src\"},\"files\":{\"lib/forge-std/src/Base.sol\":{\"artifacts\":{\"CommonBase\":{\"0.8.21+commit.d9974bed\":\"Base.sol/CommonBase.json\"}}},\"lib/forge-std/src/New.sol\":{\"artifacts\":{\"New\":{\"0.8.21+commit.d9974bed\":\"New.sol/New.json\"}}}}}";

#[test]
fn supported_versions_are_listed() {
    assert_eq!(versions(), vec!["0.8.20", "0.8.21", "0.8.22", "0.8.23"]);
}

#[test]
fn library_files_are_told_by_prefix() {
    assert!(starts_with_lib("lib/forge-std/src/Base.sol"));
    assert!(starts_with_lib("lib"));
    assert!(!starts_with_lib("li"));
    assert!(!starts_with_lib("src/lib.sol"));
    assert!(!starts_with_lib(""));
}

#[test]
fn first_manifest_starts_the_template() {
    let t = start_template(Json::from_text(MANIFEST_20).unwrap(), "0.8.20");
    assert_eq!(
        t.to_text(),
        "{\"_format\":\"hh-sol-cache-2\",\"files\":{\"lib/forge-std/src/Base.sol\":{\"artifacts\":{\"CommonBase\":{\"0.8.20+commit.a1b79de6\":\"0.8.20/Base.sol/CommonBase.json\"}},\"lastModificationDate\":1},\"src/Own.sol\":{\"artifacts\":{\"Own\":{\"0.8.20+commit.a1b79de6\":\"Own.sol/Own.json\"}}}},\"paths\":{\"artifacts\":\"tmp_out\",\"build_infos\":\"tmp_out/build-info\",\"libraries\":[\"lib\"],\"sources\":\"fixme\",\"tests\":\"test\"}}"
    );
}

#[test]
fn later_manifest_is_merged_under_its_version() {
    let t = start_template(Json::from_text(MANIFEST_20).unwrap(), "0.8.20");
    let t = merge_version(t, &Json::from_text(MANIFEST_21).unwrap(), "0.8.21");
    let files = t.get("files").unwrap();
    assert_eq!(
        files.get("lib/forge-std/src/Base.sol").unwrap().get("artifacts").unwrap().to_text(),
        "{\"CommonBase\":{\"0.8.20+commit.a1b79de6\":\"0.8.20/Base.sol/CommonBase.json\",\"0.8.21+commit.d9974bed\":\"0.8.21/Base.sol/CommonBase.json\"}}"
    );
    assert_eq!(
        files.get("lib/forge-std/src/Base.sol").unwrap().get("lastModificationDate").unwrap().to_text(),
        "1"
    );
    assert_eq!(
        files.get("lib/forge-std/src/New.sol").unwrap().to_text(),
        "{\"artifacts\":{\"New\":{\"0.8.21+commit.d9974bed\":\"0.8.21/New.sol/New.json\"}}}"
    );
    assert_eq!(t.get("paths").unwrap().get("sources").unwrap().as_text().unwrap(), "fixme");
}

#[test]
fn manifest_without_files_changes_nothing() {
    let t = start_template(Json::from_text(MANIFEST_20).unwrap(), "0.8.20");
    let before = t.to_text();
    let t = merge_version(t, &Json::from_text("{\"paths\":{}}").unwrap(), "0.8.21");
    assert_eq!(t.to_text(), before);
}

#[test]
fn template_is_made_of_all_manifests() {
    let vs = vec!["0.8.20".to_string(), "0.8.21".to_string()];
    let ms = vec![MANIFEST_20.to_string(), MANIFEST_21.to_string()];
    let text = init_cache_file(&vs, &ms).unwrap();
    let t = Json::from_text(&text).unwrap();
    assert!(t.get("files").unwrap().get("lib/forge-std/src/New.sol").is_some());
    assert!(text.contains("\n  \"files\": {"));
    assert!(init_cache_file(&vs, &vec![MANIFEST_20.to_string()]).is_none());
    assert!(init_cache_file(&Vec::new(), &Vec::new()).is_none());
    assert!(init_cache_file(&vs, &vec![MANIFEST_20.to_string(), "oops".to_string()]).is_none());
    assert!(init_cache_file(&vs, &vec!["oops".to_string(), MANIFEST_21.to_string()]).is_none());
}

#[test]
fn cache_file_paths_point_into_the_workspace() {
    let t = rewrite_template(Json::from_text(MANIFEST_20).unwrap(), "w/01/q1", "w/01/q1/out");
    assert_eq!(
        t.get("paths").unwrap().to_text(),
        "{\"artifacts\":\"w/01/q1/out\",\"build_infos\":\"w/01/q1/out/build-info\",\"libraries\":[\"lib\"],\"sources\":\"w/01/q1\",\"tests\":\"test\"}"
    );
    assert!(t.get("files").is_some());
    let t = rewrite_template(Json::from_text("{}").unwrap(), "r", "o");
    assert_eq!(
        t.to_text(),
        "{\"paths\":{\"artifacts\":\"o\",\"build_infos\":\"o/build-info\",\"sources\":\"r\",\"tests\":\"test\"}}"
    );
}

#[test]
fn cache_file_text_needs_a_json_template() {
    assert_eq!(
        prepare_cache_file("{\"paths\":\"x\"}", "r", "o").unwrap(),
        "{\"paths\":{\"artifacts\":\"o\",\"build_infos\":\"o/build-info\",\"sources\":\"r\",\"tests\":\"test\"}}"
    );
    assert!(prepare_cache_file("oops", "r", "o").is_none());
}

#[test]
fn bootstrap_build_arguments() {
    assert_eq!(
        bootstrap_arguments("0.8.22"),
        vec!["build", "--contracts", "lib/forge-std/src", "--out", "tmp_out", "--use", "0.8.22"]
    );
}

#[test]
fn nothing_known_of_a_file_gives_it_no_entry() {
    let t = start_template(Json::from_text("{\"files\":{}}").unwrap(), "0.8.20");
    let manifest = Json::from_text(
        "{\"files\":{\"lib/A.sol\":{\"artifacts\":{}},\"lib/B.sol\":{\"artifacts\":{\"B\":{}}},\"lib/C.sol\":{\"artifacts\":{\"C\":{\"0.8.21\":\"C.json\"},\"D\":{}}}}}",
    )
    .unwrap();
    let t = merge_version(t, &manifest, "0.8.21");
    assert_eq!(
        t.get("files").unwrap().to_text(),
        "{\"lib/C.sol\":{\"artifacts\":{\"C\":{\"0.8.21\":\"0.8.21/C.json\"}}}}"
    );
}
