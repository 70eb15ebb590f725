use foundry_judge::scanner::{
    declared_score, parse_attribute, question_from_parts, scan_source, scan_sources, set_attribute,
};
use foundry_judge::scoring::Attribute;

const SOURCE: &str = "contract T {\n    /*\n     * @Score: 10\n     * @Title: adds two numbers\n     */\n    function test_addition() public {\n    }\n\n    function helper() public {}\n\n    /*\n    @Score: 5\n    */\n    function test_subtraction() public {\n    }\n}\n";

#[test]
fn scan_finds_annotated_functions_in_order() {
    let found = scan_source(SOURCE).unwrap();
    assert_eq!(found.len(), 2);
    assert_eq!(found[0].function_name, "test_addition");
    assert_eq!(found[0].declared_score, 10);
    assert!(!found[0].passed);
    assert_eq!(found[0].attributes.len(), 2);
    assert_eq!(found[0].attributes[0].name, "Score");
    assert_eq!(found[0].attributes[0].value, "10");
    assert_eq!(found[0].attributes[1].name, "Title");
    assert_eq!(found[0].attributes[1].value, "adds two numbers");
    assert_eq!(found[1].function_name, "test_subtraction");
    assert_eq!(found[1].declared_score, 5);
}

#[test]
fn scan_of_source_without_annotations_is_empty() {
    let found = scan_source("contract T { function test_plain() public {} }").unwrap();
    assert!(found.is_empty());
}

#[test]
fn scan_sources_concatenates() {
    let sources = vec![SOURCE.to_string(), "/*\n@Score: 7\n*/\nfunction test_third() {}".to_string()];
    let found = scan_sources(&sources).unwrap();
    assert_eq!(found.len(), 3);
    assert_eq!(found[2].function_name, "test_third");
    assert_eq!(found[2].declared_score, 7);
}

#[test]
fn score_defaults_to_zero() {
    let found = scan_source("/* @Title: x */ function test_a() {}").unwrap();
    assert_eq!(found.len(), 1);
    assert_eq!(found[0].declared_score, 0);
    let found = scan_source("/*\n@Score: ten\n*/ function test_a() {}").unwrap();
    assert_eq!(found[0].declared_score, 0);
    assert_eq!(found[0].attributes[0].value, "ten");
}

#[test]
fn attribute_value_runs_to_the_end_of_its_line() {
    let found = scan_source("/* @Score: 5 */ function test_a() {}").unwrap();
    assert_eq!(found.len(), 1);
    assert_eq!(found[0].attributes[0].name, "Score");
    assert_eq!(found[0].attributes[0].value, "5 */ function test_a");
    assert_eq!(found[0].declared_score, 0);
}

#[test]
fn attribute_line_is_split_at_colons() {
    let a = parse_attribute("@Score :  10  ").unwrap();
    assert_eq!(a.name, "Score");
    assert_eq!(a.value, "10");
    let a = parse_attribute("@Link: http://example").unwrap();
    assert_eq!(a.name, "Link");
    assert_eq!(a.value, "http");
    assert!(parse_attribute("@nothing here").is_none());
    assert!(parse_attribute("").is_none());
}

#[test]
fn later_attribute_replaces_earlier() {
    let mut attrs = vec![Attribute { name: "Score".to_string(), value: "1".to_string() }];
    set_attribute(&mut attrs, "Title".to_string(), "t".to_string());
    set_attribute(&mut attrs, "Score".to_string(), "2".to_string());
    assert_eq!(attrs.len(), 2);
    assert_eq!(attrs[0].name, "Score");
    assert_eq!(attrs[0].value, "2");
    assert_eq!(declared_score(&attrs), 2);
}

#[test]
fn question_takes_last_name() {
    let lines = vec!["@Score: 3".to_string()];
    let names = vec!["test_a".to_string(), "test_b".to_string()];
    let q = question_from_parts(&lines, &names).unwrap();
    assert_eq!(q.function_name, "test_b");
    assert_eq!(q.declared_score, 3);
    assert!(question_from_parts(&lines, &Vec::new()).is_none());
}
