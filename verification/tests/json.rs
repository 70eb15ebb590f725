use foundry_judge::json::{find_member, set_member, Json, Member};

#[test]
fn json_text_round_trip() {
    let doc = Json::from_text("{\"b\": [1, 2.5, \"x\", null, true], \"a\": {\"k\": -3}}").unwrap();
    assert_eq!(doc.to_text(), "{\"a\":{\"k\":-3},\"b\":[1,2.5,\"x\",null,true]}");
}

#[test]
fn json_rejects_what_is_no_json() {
    assert!(Json::from_text("").is_err());
    assert!(Json::from_text("{").is_err());
    assert!(Json::from_text("not json").is_err());
    assert!(Json::from_text("{} trailing").is_err());
}

#[test]
fn json_member_lookup() {
    let doc = Json::from_text("{\"name\": \"n\", \"other\": 5}").unwrap();
    assert_eq!(doc.get("name").unwrap().as_text().unwrap(), "n");
    assert!(doc.get("other").unwrap().as_text().is_none());
    assert!(doc.get("missing").is_none());
    assert!(Json::Null.get("name").is_none());
}

#[test]
fn json_set_member_replaces_or_appends() {
    let mut members: Vec<Member> = Vec::new();
    set_member(&mut members, "a", Json::integer(1));
    set_member(&mut members, "b", Json::integer(2));
    set_member(&mut members, "a", Json::integer(3));
    assert_eq!(members.len(), 2);
    assert_eq!(find_member(&members, "a"), 0);
    assert_eq!(find_member(&members, "b"), 1);
    assert_eq!(find_member(&members, "c"), 2);
    assert_eq!(Json::Object(members).to_text(), "{\"a\":3,\"b\":2}");
}

#[test]
fn json_integers_are_written_in_decimal() {
    assert_eq!(Json::integer(0).to_text(), "0");
    assert_eq!(Json::integer(-2).to_text(), "-2");
    assert_eq!(Json::integer(i64::MAX as i128).to_text(), "9223372036854775807");
    assert_eq!(Json::integer(i64::MIN as i128).to_text(), "-9223372036854775808");
}

#[test]
fn json_number_that_is_no_number_is_written_as_null() {
    assert_eq!(Json::Number("abc".to_string()).to_text(), "null");
}

#[test]
fn json_pretty_text_is_indented() {
    let doc = Json::object().with_member("a", Json::integer(1));
    assert_eq!(doc.to_pretty_text(), "{\n  \"a\": 1\n}");
    assert_eq!(Json::Array(Vec::new()).to_pretty_text(), "[]");
}

#[test]
fn json_with_member_leaves_other_documents() {
    assert_eq!(Json::Null.with_member("a", Json::integer(1)).to_text(), "null");
    assert_eq!(Json::text("t").with_member("a", Json::integer(1)).to_text(), "\"t\"");
}

#[test]
fn json_integers_beyond_64_bits_are_written_as_floats() {
    assert_eq!(Json::integer(u64::MAX as i128).to_text(), "18446744073709551615");
    assert_eq!(Json::integer(u64::MAX as i128 + 1).to_text(), "1.8446744073709552e+19");
    assert_eq!(Json::integer(i64::MIN as i128 - 1).to_text(), "-9.223372036854776e+18");
}
