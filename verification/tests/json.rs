use wxauto_desktop::json::{parse_json, parse_json_or_fault, write_json, write_json_pretty, Json};

#[test]
fn text_to_value_and_back() {
    let text = "{\"a\":1,\"b\":[true,null,\"x\\n\\\"y\\\"\"],\"c\":-5,\"d\":{\"e\":18446744073709551615}}";
    let j = parse_json(text).unwrap();
    assert_eq!(write_json(&j), text);
    assert_eq!(j.get("a").unwrap().as_u64(), Some(1));
    assert_eq!(j.get("c").unwrap().as_i64(), Some(-5));
    assert_eq!(j.get("c").unwrap().as_u64(), None);
    let items = j.get("b").unwrap().as_array().unwrap();
    assert_eq!(items.len(), 3);
    assert_eq!(items[0].as_bool(), Some(true));
    assert!(matches!(items[1], Json::Null));
    assert_eq!(items[2].as_str(), Some("x\n\"y\""));
    let e = j.get("d").unwrap().get("e").unwrap();
    assert_eq!(e.as_u64(), Some(u64::MAX));
    assert_eq!(e.as_i64(), None);
}

#[test]
fn fractions_pass_through() {
    let j = parse_json("{\"x\":1.5}").unwrap();
    assert!(matches!(j.get("x"), Some(Json::Real(_))));
    assert_eq!(j.get("x").unwrap().as_u64(), None);
    assert_eq!(write_json(&j.copy()), "{\"x\":1.5}");
}

#[test]
fn compact_text_has_no_line_break() {
    let j = Json::object().put("k", Json::text("a\nb\rc"));
    let text = write_json(&j);
    assert!(!text.contains('\n') && !text.contains('\r'));
    assert_eq!(text, "{\"k\":\"a\\nb\\rc\"}");
}

#[test]
fn pretty_text_is_indented() {
    let j = Json::object().put("k", Json::Uint(1));
    assert_eq!(write_json_pretty(&j), "{\n  \"k\": 1\n}");
}

#[test]
fn no_json_is_refused() {
    assert!(parse_json("{ not json").is_none());
    assert!(parse_json("").is_none());
    let fault = parse_json_or_fault("nope").err().unwrap();
    assert!(!fault.is_empty());
    assert!(parse_json_or_fault("[1]").is_ok());
}

#[test]
fn nesting_is_bounded() {
    let deep = format!("{}1{}", "[".repeat(127), "]".repeat(127));
    assert!(parse_json(&deep).is_some());
    let deeper = format!("{}1{}", "[".repeat(128), "]".repeat(128));
    assert!(parse_json(&deeper).is_none());
}

#[test]
fn put_replaces_in_place() {
    let j = Json::object().put("a", Json::Uint(1)).put("b", Json::Uint(2)).put("a", Json::Uint(3));
    assert_eq!(j.get("a").unwrap().as_u64(), Some(3));
    assert_eq!(j.get("b").unwrap().as_u64(), Some(2));
    assert_eq!(write_json(&j), "{\"a\":3,\"b\":2}");
    assert_eq!(write_json(&Json::Uint(7).put("a", Json::Null)), "7");
}

#[test]
fn repeated_key_stands_for_its_last_value() {
    let j = parse_json("{\"a\":1,\"a\":2}").unwrap();
    assert_eq!(j.get("a").unwrap().as_u64(), Some(2));
    assert!(j.get("b").is_none());
    assert!(Json::Null.get("a").is_none());
}

#[test]
fn accessors_tell_kinds_apart() {
    assert_eq!(Json::Int(5).as_u64(), Some(5));
    assert_eq!(Json::Uint(5).as_i64(), Some(5));
    assert_eq!(Json::Bool(true).as_str(), None);
    assert_eq!(Json::text("x").as_bool(), None);
    assert!(Json::text("x").as_array().is_none());
    let j = Json::object().put("s", Json::text("v")).put("b", Json::Bool(false));
    assert_eq!(j.get_str("s"), Some("v"));
    assert_eq!(j.get_str("b"), None);
    assert_eq!(j.get_bool("b"), Some(false));
    assert_eq!(j.get_bool("missing"), None);
}
