use datablind_policy::codec::read_text;
use datablind_policy::describe::{clip, describe_data_for_log, is_clippable, list_keys, try_describe};
use datablind_policy::json::Json;
use datablind_policy::payload::normalize_data_for_datacrypt;

fn json(s: &str) -> Json {
    read_text(s).unwrap()
}

#[test]
fn error_is_described() {
    assert_eq!(
        describe_data_for_log(&json(r#"{"a":1,"error":"bad \"key\""}"#)),
        r#"error={"error":"bad "key""}"#
    );
}

#[test]
fn object_is_described_by_its_first_keys() {
    assert_eq!(
        describe_data_for_log(&json(r#"{"b":1,"a\n":2,"error":3}"#)),
        r#"object keys=["a\n", "b", "error"]"#
    );
    assert_eq!(
        describe_data_for_log(&json(
            r#"{"i":9,"h":8,"g":7,"f":6,"e":5,"d":4,"c":3,"b":2,"a":1}"#
        )),
        r#"object keys=["a", "b", "c", "d", "e", "f", "g", "h"]"#
    );
    assert_eq!(describe_data_for_log(&json("{}")), "object keys=[]");
}

#[test]
fn keys_are_listed() {
    let Json::Object(object) = json(r#"{"b":1,"a":2}"#) else {
        panic!("not an object");
    };
    assert_eq!(list_keys(&object), vec!["a".to_string(), "b".to_string()]);
}

#[test]
fn array_is_described_by_its_length() {
    assert_eq!(describe_data_for_log(&json("[1,2,3]")), "array len=3");
    assert_eq!(describe_data_for_log(&json("[]")), "array len=0");
    assert_eq!(describe_data_for_log(&Json::Array(vec![Json::Null; 120])), "array len=120");
}

#[test]
fn scalar_is_described_by_its_text() {
    assert_eq!(describe_data_for_log(&Json::Null), "null");
    assert_eq!(describe_data_for_log(&json("1.5")), "1.5");
    assert_eq!(describe_data_for_log(&json(r#""x""#)), r#""x""#);
}

#[test]
fn long_scalar_is_cut() {
    let exact = Json::Text("x".repeat(118));
    assert_eq!(describe_data_for_log(&exact), format!("\"{}\"", "x".repeat(118)));
    let long = Json::Text("x".repeat(119));
    assert_eq!(describe_data_for_log(&long), format!("\"{}...", "x".repeat(119)));
}

#[test]
fn scalar_that_cannot_be_cut_has_no_description() {
    // The quotation mark and 59 characters of two bytes end at byte 119.
    let value = Json::Text("é".repeat(60));
    assert_eq!(try_describe(&value), None);
    assert_eq!(try_describe(&json("true")), Some("true".to_string()));
    assert_eq!(try_describe(&json("[]")), Some("array len=0".to_string()));
}

#[test]
fn texts_are_clipped() {
    assert_eq!(clip("short"), "short");
    assert_eq!(clip(&"é".repeat(61)), format!("{}...", "é".repeat(60)));
    assert!(is_clippable(&"é".repeat(61)));
    assert!(!is_clippable(&format!("x{}", "é".repeat(60))));
    assert!(is_clippable(&"é".repeat(60)));
}

#[test]
fn description_of_normalized_data_tells_its_kind() {
    for (source, start) in [
        ("[[1],{\"error\":\"x\"}]", "array len=2"),
        ("{\"error\":\"x\"}", "error={"),
        ("{\"error\":1}", "object keys=["),
        ("\"array len=3\"", "object keys=[\"value\"]"),
        ("null", "object keys=["),
    ] {
        let data = normalize_data_for_datacrypt(json(source));
        assert!(describe_data_for_log(&data).starts_with(start));
    }
}
