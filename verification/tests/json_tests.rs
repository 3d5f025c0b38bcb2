use avanza_ghostfolio::json::{json_array_of, json_object_of, json_string};

#[test]
fn plain_string_is_quoted() {
    assert_eq!(json_string("avanza").unwrap(), "\"avanza\"");
    assert_eq!(json_string("").unwrap(), "\"\"");
}

#[test]
fn special_characters_are_escaped() {
    assert_eq!(
        json_string("a\"b\\c\n\t\r\u{8}\u{c}").unwrap(),
        "\"a\\\"b\\\\c\\n\\t\\r\\b\\f\""
    );
    assert_eq!(json_string("\u{1}\u{1f}").unwrap(), "\"\\u0001\\u001f\"");
}

#[test]
fn other_characters_are_kept() {
    assert_eq!(json_string("é/€\u{7f}").unwrap(), "\"é/€\u{7f}\"");
}

#[test]
fn escaping_agrees_with_serde_json() {
    for s in ["Öhman \"Global\"", "tab\tand\\slash", "\u{0}\u{1b}x", "日本"] {
        assert_eq!(json_string(s).unwrap(), serde_json::to_string(s).unwrap());
    }
}

#[test]
fn arrays() {
    assert_eq!(json_array_of(&vec![]), "[]");
    assert_eq!(json_array_of(&vec!["1".to_string()]), "[1]");
    assert_eq!(json_array_of(&vec!["1".to_string(), "\"a\"".to_string(), "null".to_string()]), "[1,\"a\",null]");
}

#[test]
fn objects() {
    assert_eq!(json_object_of(&vec![]).unwrap(), "{}");
    assert_eq!(
        json_object_of(&vec![("a".to_string(), "1".to_string()), ("b\"".to_string(), "[]".to_string())]).unwrap(),
        "{\"a\":1,\"b\\\"\":[]}"
    );
}

#[test]
fn objects_agree_with_serde_json_maps() {
    let mut map = serde_json::Map::new();
    map.insert("source".to_string(), serde_json::Value::String("avanza".to_string()));
    map.insert("orderbook_id".to_string(), serde_json::Value::String("1\"2".to_string()));
    let expected = serde_json::to_string(&serde_json::Value::Object(map)).unwrap();
    let ours = json_object_of(&vec![
        ("orderbook_id".to_string(), json_string("1\"2").unwrap()),
        ("source".to_string(), json_string("avanza").unwrap()),
    ])
    .unwrap();
    assert_eq!(ours, expected);
}
