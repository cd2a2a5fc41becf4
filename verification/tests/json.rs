use datablind_policy::codec::{
    is_float_free, read_bytes, read_text, value_from_json, write_text, NESTING_LIMIT,
};
use datablind_policy::json::{Json, JsonObject};

fn text(s: &str) -> Json {
    Json::Text(s.to_string())
}

fn number(n: u64) -> Json {
    Json::Number(serde_json::Number::from(n))
}

fn members(entries: Vec<(&str, Json)>) -> JsonObject {
    let mut object = JsonObject::new();
    for (key, value) in entries {
        object.insert(key.to_string(), value);
    }
    object
}

#[test]
fn object_keeps_its_keys_in_order() {
    let object = members(vec![("b", number(1)), ("a", number(2)), ("c", number(3))]);
    assert_eq!(object.len(), 3);
    assert_eq!(object.entry(0), (&"a".to_string(), &number(2)));
    assert_eq!(object.entry(1), (&"b".to_string(), &number(1)));
    assert_eq!(object.entry(2), (&"c".to_string(), &number(3)));
}

#[test]
fn object_insert_replaces() {
    let mut object = members(vec![("a", number(1)), ("b", number(2))]);
    object.insert("a".to_string(), text("new"));
    assert_eq!(object.len(), 2);
    assert_eq!(object.get("a"), Some(&text("new")));
    assert_eq!(object.get("b"), Some(&number(2)));
    assert_eq!(object.get("c"), None);
}

#[test]
fn object_remove_takes_one_member() {
    let mut object = members(vec![("a", number(1)), ("b", number(2)), ("c", number(3))]);
    assert_eq!(object.remove("b"), Some(number(2)));
    assert_eq!(object.remove("b"), None);
    assert_eq!(object, members(vec![("a", number(1)), ("c", number(3))]));
    assert_eq!(JsonObject::new().len(), 0);
}

#[test]
fn keys_are_ordered_by_code_points() {
    let object = members(vec![("é", Json::Null), ("z", Json::Null), ("", Json::Null), ("Z", Json::Null)]);
    let keys: Vec<&str> = (0..object.len()).map(|i| object.entry(i).0.as_str()).collect();
    assert_eq!(keys, vec!["", "Z", "z", "é"]);
}

#[test]
fn text_is_read_as_the_value_it_writes() {
    let read = read_text(r#" {"b":[1,-2,1.5,true,null],"a":{"x":"y"}} "#).unwrap();
    let mut inner = JsonObject::new();
    inner.insert("x".to_string(), text("y"));
    let expected = members(vec![
        ("a", Json::Object(inner)),
        (
            "b",
            Json::Array(vec![
                number(1),
                Json::Number(serde_json::Number::from(-2)),
                Json::Number(serde_json::Number::from_f64(1.5).unwrap()),
                Json::Bool(true),
                Json::Null,
            ]),
        ),
    ]);
    assert_eq!(read, Json::Object(expected));
}

#[test]
fn reading_a_broken_text_gives_the_message() {
    assert_eq!(
        read_text("nope"),
        Err("expected ident at line 1 column 2".to_string())
    );
}

#[test]
fn duplicate_keys_keep_the_last_value() {
    assert_eq!(
        read_text(r#"{"a":1,"a":2}"#),
        Ok(Json::Object(members(vec![("a", number(2))])))
    );
}

#[test]
fn bytes_are_read_when_they_are_json() {
    assert_eq!(read_bytes(b"[1]"), Some(Json::Array(vec![number(1)])));
    assert_eq!(read_bytes(b"[1"), None);
    assert_eq!(read_bytes(b"\"\xff\""), None);
}

#[test]
fn written_text_is_compact_and_ordered() {
    let value = Json::Object(members(vec![
        ("b", Json::Array(vec![Json::Null, text("q\"\n")])),
        ("a", number(7)),
    ]));
    assert_eq!(
        write_text(&value),
        Ok(r#"{"a":7,"b":[null,"q\"\n"]}"#.to_string())
    );
}

#[test]
fn written_text_is_read_back() {
    let value = Json::Object(members(vec![
        ("k", Json::Array(vec![text("\u{0}\u{2028}é😀"), number(u64::MAX), Json::Bool(false)])),
        ("", Json::Object(JsonObject::new())),
    ]));
    let written = write_text(&value).unwrap();
    assert_eq!(read_text(&written), Ok(value));
}

#[test]
fn nesting_beyond_the_reader_is_not_read_back() {
    let nested = |depth: usize| "[".repeat(depth) + &"]".repeat(depth);
    assert!(read_text(&nested(127)).is_ok());
    assert!(read_text(&nested(128)).is_err());
}

#[test]
fn copies_and_conversions_keep_the_value() {
    let value = read_text(r#"{"a":[{"b":null}],"c":"d"}"#).unwrap();
    assert_eq!(value.clone(), value);
    assert_eq!(
        value_from_json(&value),
        serde_json::from_str::<serde_json::Value>(r#"{"a":[{"b":null}],"c":"d"}"#).unwrap()
    );
}

#[test]
fn lookups_of_values() {
    let value = read_text(r#"{"0":"zero","k":1}"#).unwrap();
    assert_eq!(value.get("k"), Some(&number(1)));
    assert_eq!(value.get_zero(), Some(&text("zero")));
    assert_eq!(value.as_text(), None);
    let list = Json::Array(vec![number(5), number(6)]);
    assert_eq!(list.get("0"), None);
    assert_eq!(list.get_zero(), Some(&number(5)));
    assert_eq!(Json::Array(vec![]).get_zero(), None);
    assert_eq!(text("t").as_text(), Some(&"t".to_string()));
    assert_eq!(text("t").get_zero(), None);
}

#[test]
fn integers_are_read_back() {
    for n in [
        serde_json::Number::from(0u64),
        serde_json::Number::from(u64::MAX),
        serde_json::Number::from(i64::MAX),
        serde_json::Number::from(-1),
        serde_json::Number::from(i64::MIN),
    ] {
        let value = Json::Number(n);
        assert!(is_float_free(&value, 0));
        assert_eq!(read_text(&write_text(&value).unwrap()), Ok(value));
    }
}

#[test]
fn floats_and_depths_are_found() {
    let json = |s: &str| read_text(s).unwrap();
    assert!(is_float_free(&json(r#"{"a":[1,-2,"1.5",null]}"#), NESTING_LIMIT));
    assert!(!is_float_free(&json(r#"{"a":[1,-2.5]}"#), NESTING_LIMIT));
    assert!(!is_float_free(&json(r#"{"a":1,"b":1e2}"#), NESTING_LIMIT));
    // Neither of these is an integer of 64 bits.
    assert!(!is_float_free(&json("-0"), NESTING_LIMIT));
    assert!(!is_float_free(&json("18446744073709551616"), NESTING_LIMIT));
    assert!(is_float_free(&json("[[]]"), 2));
    assert!(!is_float_free(&json("[[]]"), 1));
    assert!(!is_float_free(&json(r#"{"a":{}}"#), 1));
}

#[test]
fn json_text_is_read_alike_when_trimmed() {
    for text in [" 1\n", "\t[1, 2]\r\n", "\"\u{3000}\" ", " {\"a\" : null}"] {
        assert_eq!(read_text(text), read_text(text.trim()));
        assert!(read_text(text).is_ok());
    }
    assert!(read_text("\u{3000}1").is_err());
    assert!(read_text("\u{3000}1".trim()).is_ok());
    assert!(read_text("").is_err());
    assert!(read_text("\u{1f}1").is_err());
    assert_eq!(read_bytes(b"\x1f1"), None);
}

#[test]
fn written_text_has_no_white_space_at_its_ends() {
    for value in [Json::Null, text(" x "), Json::Array(vec![text(" ")]), number(3)] {
        let written = write_text(&value).unwrap();
        assert_eq!(written.trim(), written);
    }
}
