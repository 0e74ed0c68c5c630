use mafold_cli::json::{parse_bytes, parse_text, Json};

fn text(s: &str) -> Json {
    Json::Text(s.to_string())
}

#[test]
fn every_kind_of_value_is_read() {
    let read = parse_text(r#" {"b": [null, true, -1.5, 12, "xA", []], "a": {}} "#);
    let expected = Json::Object(vec![
        ("a".to_string(), Json::Object(vec![])),
        (
            "b".to_string(),
            Json::Array(vec![
                Json::Null,
                Json::Bool(true),
                Json::Number("-1.5".to_string()),
                Json::Number("12".to_string()),
                text("xA"),
                Json::Array(vec![]),
            ]),
        ),
    ]);
    assert_eq!(read, Some(expected));
}

#[test]
fn bytes_are_read_like_text() {
    assert_eq!(parse_bytes(b"[false,\"\xc3\xa9\"]"), Ok(Json::Array(vec![Json::Bool(false), text("é")])));
    assert_eq!(parse_bytes(b"42"), Ok(Json::Number("42".to_string())));
}

#[test]
fn what_is_no_json_is_refused() {
    assert_eq!(parse_text(""), None);
    assert_eq!(parse_text("{"), None);
    assert_eq!(parse_text("{} {}"), None);
    assert_eq!(parse_text("nope"), None);
    assert_eq!(
        parse_bytes(b""),
        Err("EOF while parsing a value at line 1 column 0".to_string())
    );
    assert!(parse_bytes(b"\"\xff\"").is_err());
}

#[test]
fn the_last_of_two_equal_keys_counts() {
    let v = parse_text(r#"{"k": 1, "k": 2}"#).unwrap();
    assert_eq!(v.get("k"), Some(&Json::Number("2".to_string())));
}

#[test]
fn parts_are_reached_by_key() {
    let v = parse_text(r#"{"a": "x", "n": null, "o": {"a": "y"}}"#).unwrap();
    assert_eq!(v.get("a"), Some(&text("x")));
    assert_eq!(v.get("n"), Some(&Json::Null));
    assert_eq!(v.get("z"), None);
    assert_eq!(v.text_at("a"), Some("x"));
    assert_eq!(v.text_at("n"), None);
    assert_eq!(v.text_at("z"), None);
    assert_eq!(v.get("o").unwrap().text_at("a"), Some("y"));
    assert!(v.says("a", "x"));
    assert!(!v.says("a", "y"));
    assert!(!v.says("o", "y"));
    assert_eq!(Json::Array(vec![text("a")]).get("a"), None);
    assert_eq!(Json::from_text("t").text(), Some("t"));
    assert_eq!(Json::Null.text(), None);
}

#[test]
fn a_clone_is_the_same_value() {
    let v = parse_text(r#"{"a": [1, {"b": "c"}, null], "d": false}"#).unwrap();
    assert_eq!(v.clone(), v);
}
