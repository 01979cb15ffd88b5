use gemini_provider::json::JsonValue;
use gemini_provider::json_text::{is_read_back, parse_json, print_json, MalformedJson};
use gemini_provider::schema::{rewrite_const, schema_contains_key};

fn json(text: &str) -> JsonValue {
    parse_json(text).unwrap()
}

#[test]
fn parsing_tells_the_kinds_of_values_apart() {
    assert_eq!(json("null"), JsonValue::Null);
    assert_eq!(json(" true "), JsonValue::Bool(true));
    assert_eq!(json("17"), JsonValue::Number(serde_json::Number::from(17)));
    assert_eq!(json("\"a\\u00e9\\n\""), JsonValue::String("a\u{e9}\n".to_string()));
    assert_eq!(
        json("[false, []]"),
        JsonValue::Array(vec![JsonValue::Bool(false), JsonValue::Array(vec![])])
    );
    assert_eq!(
        json("{\"b\": 1, \"a\": {}}"),
        JsonValue::Object(vec![
            ("b".to_string(), JsonValue::Number(serde_json::Number::from(1))),
            ("a".to_string(), JsonValue::Object(vec![])),
        ])
    );
}

#[test]
fn malformed_text_is_refused() {
    assert_eq!(parse_json("{\"a\": }"), Err(MalformedJson));
    assert_eq!(parse_json(""), Err(MalformedJson));
    assert_eq!(parse_json("1 2"), Err(MalformedJson));
}

#[test]
fn printing_is_compact_and_keeps_the_order_of_entries() {
    let value = json("{ \"z\" : [ 1, 2.5, -3 ], \"a\" : \"q\\\"\\u0001\" }");
    assert_eq!(print_json(&value), "{\"z\":[1,2.5,-3],\"a\":\"q\\\"\\u0001\"}");
}

#[test]
fn printed_values_are_read_back() {
    let value = json("{\"z\": [null, true, \"\u{1F600}\\\\\"], \"a\": {\"b\": [], \"c\": \"\"}}");
    assert_eq!(json(&print_json(&value)), value);
}

#[test]
fn integers_are_read_back() {
    let value = json(
        "{\"minimum\": -9223372036854775808, \"maximum\": 18446744073709551615, \"x\": [0, -1, 17]}",
    );
    assert!(is_read_back(&value));
    assert_eq!(
        print_json(&value),
        "{\"minimum\":-9223372036854775808,\"maximum\":18446744073709551615,\"x\":[0,-1,17]}"
    );
    assert_eq!(json(&print_json(&value)), value);
}

#[test]
fn reading_back_is_certain_without_floating_point_numbers_and_deep_nesting() {
    assert!(is_read_back(&json("{\"a\": [1, {\"b\": \"2.5\"}, null]}")));
    assert!(!is_read_back(&json("2.5")));
    assert!(!is_read_back(&json("-0")));
    assert!(!is_read_back(&json("18446744073709551616")));
    assert!(!is_read_back(&json("{\"a\": [1, {\"b\": 2.5}]}")));
    let deepest = json(&format!("{}{}", "[".repeat(127), "]".repeat(127)));
    assert!(is_read_back(&deepest));
    assert!(!is_read_back(&JsonValue::Array(vec![deepest.clone()])));
    assert!(!is_read_back(&JsonValue::Object(vec![("a".to_string(), deepest)])));
}

#[test]
fn nesting_is_read_down_to_its_limit() {
    let deepest = format!("{}{}", "[".repeat(127), "]".repeat(127));
    let value = json(&deepest);
    assert_eq!(print_json(&value), deepest);
    let too_deep = format!("{}{}", "[".repeat(128), "]".repeat(128));
    assert_eq!(parse_json(&too_deep), Err(MalformedJson));
}

#[test]
fn a_repeated_name_keeps_its_last_value() {
    let value = json("{\"a\": 1, \"b\": 2, \"a\": 3}");
    assert_eq!(value, json("{\"a\": 3, \"b\": 2}"));
    assert!(value.has_distinct_names());
}

#[test]
fn repeated_names_are_noticed_at_any_depth() {
    let twice = JsonValue::Object(vec![
        ("a".to_string(), JsonValue::Null),
        ("a".to_string(), JsonValue::Bool(true)),
    ]);
    assert!(!twice.has_distinct_names());
    assert!(!JsonValue::Array(vec![JsonValue::Null, twice]).has_distinct_names());
    assert!(json("[{\"a\": {\"a\": 1}}, {\"a\": 2}]").has_distinct_names());
}

#[test]
fn entries_are_found_by_name() {
    let value = json("{\"a\": 1, \"b\": [2]}");
    assert_eq!(value.get("b"), Some(&json("[2]")));
    assert_eq!(value.get("c"), None);
    assert_eq!(json("[1]").get("a"), None);
}

#[test]
fn clones_are_equal() {
    let value = json("{\"a\": [1, 2.5, \"x\", null, {\"b\": false}]}");
    assert_eq!(value.clone(), value);
}

#[test]
fn keys_are_found_at_any_depth() {
    let schema = json("{\"a\": [{\"b\": {\"c\": \"d\"}}]}");
    assert!(schema_contains_key(&schema, "a"));
    assert!(schema_contains_key(&schema, "b"));
    assert!(schema_contains_key(&schema, "c"));
    assert!(!schema_contains_key(&schema, "d"));
    assert!(!schema_contains_key(&json("\"a\""), "a"));
    assert!(!schema_contains_key(&json("[]"), "a"));
}

#[test]
fn const_becomes_enum_where_it_stands() {
    assert_eq!(
        rewrite_const(&json("{\"type\": \"string\", \"const\": \"read\", \"title\": \"T\"}")),
        json("{\"type\": \"string\", \"enum\": [\"read\"], \"title\": \"T\"}")
    );
}

#[test]
fn const_takes_the_place_of_an_enum_beside_it() {
    assert_eq!(
        rewrite_const(&json("{\"enum\": [1, 2], \"const\": 2, \"title\": \"T\"}")),
        json("{\"enum\": [2], \"title\": \"T\"}")
    );
}

#[test]
fn const_inside_a_const_is_rewritten() {
    let rewritten = rewrite_const(&json("{\"const\": {\"const\": [{\"const\": null}]}}"));
    assert_eq!(rewritten, json("{\"enum\": [{\"enum\": [[{\"enum\": [null]}]]}]}"));
    assert!(!schema_contains_key(&rewritten, "const"));
}

#[test]
fn schemas_without_const_are_kept() {
    let schema = json("{\"type\": \"object\", \"enum\": [1, 1], \"x\": [{\"y\": \"const\"}, 3]}");
    assert_eq!(rewrite_const(&schema), schema);
}

#[test]
fn rewriting_twice_is_rewriting_once() {
    let once = rewrite_const(&json("[{\"const\": 1}, {\"enum\": [2], \"const\": 3}]"));
    assert_eq!(rewrite_const(&once), once);
    assert!(once.has_distinct_names());
}
