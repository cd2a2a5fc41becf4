use datablind_policy::codec::read_text;
use datablind_policy::json::{Json, JsonObject};
use datablind_policy::mcp::{
    apply_mcp_content_text, extract_mcp_content_text, extract_reading, finalize_mcp_response,
    find_content_text, is_content_object, serialize_mcp_envelope, settle_writing, McpError,
};

fn json(s: &str) -> Json {
    read_text(s).unwrap()
}

#[test]
fn data_is_extracted() {
    let envelope = json(r#"{"content":[{"type":"text","text":" {\"a\":1} "}],"isError":false}"#);
    assert_eq!(extract_mcp_content_text(&envelope), Ok(json(r#"{"a":1}"#)));
    assert_eq!(find_content_text(&envelope), Some(&" {\"a\":1} ".to_string()));
}

#[test]
fn scalar_data_is_wrapped_when_extracted() {
    let envelope = json(r#"{"content":[{"text":"7"}]}"#);
    assert_eq!(extract_mcp_content_text(&envelope), Ok(json(r#"{"value":7}"#)));
}

#[test]
fn pointer_step_reaches_into_objects_too() {
    let envelope = json(r#"{"content":{"0":{"text":"[]"}}}"#);
    assert_eq!(extract_mcp_content_text(&envelope), Ok(Json::Array(vec![])));
}

#[test]
fn missing_text_is_reported() {
    for source in [
        r#"{}"#,
        r#"[]"#,
        r#"{"content":[]}"#,
        r#"{"content":[{}]}"#,
        r#"{"content":[{"text":5}]}"#,
        r#"{"content":["text"]}"#,
        r#"{"content":"text"}"#,
    ] {
        let error = extract_mcp_content_text(&json(source)).unwrap_err();
        assert_eq!(error, McpError::MissingText);
        assert_eq!(error.message(), "MCP response missing content[0].text string");
    }
}

#[test]
fn text_that_is_not_json_is_reported() {
    let error = extract_mcp_content_text(&json(r#"{"content":[{"text":"oops"}]}"#)).unwrap_err();
    assert_eq!(
        error.message(),
        "MCP content[0].text is not valid JSON: expected value at line 1 column 1"
    );
    assert_eq!(
        extract_reading(Err("why".to_string())),
        Err(McpError::InvalidJson("why".to_string()))
    );
    assert_eq!(extract_reading(Ok(Json::Array(vec![]))), Ok(Json::Array(vec![])));
}

#[test]
fn token_is_written_into_the_envelope() {
    let mut envelope = json(r#"{"a":1,"content":[{"text":"old","type":"text"},{"text":"second"}]}"#);
    assert_eq!(apply_mcp_content_text(&mut envelope, "new"), Ok(()));
    assert_eq!(
        envelope,
        json(r#"{"a":1,"content":[{"text":"new","type":"text"},{"text":"second"}]}"#)
    );
    assert_eq!(find_content_text(&envelope), Some(&"new".to_string()));
    // The last text stands.
    assert_eq!(apply_mcp_content_text(&mut envelope, "newer"), Ok(()));
    assert_eq!(find_content_text(&envelope), Some(&"newer".to_string()));
    // The same text again changes nothing.
    let before = envelope.clone();
    assert_eq!(apply_mcp_content_text(&mut envelope, "newer"), Ok(()));
    assert_eq!(envelope, before);
}

#[test]
fn token_is_written_where_no_text_was() {
    let mut envelope = json(r#"{"content":{"0":{"x":1},"1":2}}"#);
    assert!(is_content_object(&envelope));
    assert_eq!(apply_mcp_content_text(&mut envelope, "t"), Ok(()));
    assert_eq!(envelope, json(r#"{"content":{"0":{"text":"t","x":1},"1":2}}"#));
}

#[test]
fn envelope_without_item_is_left_alone() {
    for source in [r#"{"content":[]}"#, r#"{"content":["x"]}"#, r#"{"a":1}"#, r#"[{"content":1}]"#] {
        let mut envelope = json(source);
        let error = apply_mcp_content_text(&mut envelope, "t").unwrap_err();
        assert_eq!(error, McpError::MissingItem);
        assert_eq!(error.message(), "MCP response missing content[0] object");
        assert_eq!(envelope, json(source));
        assert!(!is_content_object(&envelope));
        assert_eq!(finalize_mcp_response(&mut envelope, "t"), Err(McpError::MissingItem));
    }
}

#[test]
fn envelope_is_serialized() {
    assert_eq!(
        serialize_mcp_envelope(&Json::Object(JsonObject::new())),
        Ok("{}".to_string())
    );
    assert_eq!(settle_writing(Ok("t".to_string())), Ok("t".to_string()));
    let error = settle_writing(Err("why".to_string())).unwrap_err();
    assert_eq!(error, McpError::NotWritten("why".to_string()));
    assert_eq!(error.message(), "Failed to serialize MCP envelope: why");
}

#[test]
fn finished_envelope_carries_the_token() {
    let mut envelope = json(r#"{"content":[{"text":"{}"}],"n":1.5}"#);
    let body = finalize_mcp_response(&mut envelope, "a\"b\n").unwrap();
    assert_eq!(body, r#"{"content":[{"text":"a\"b\n"}],"n":1.5}"#);
    let read = json(&body);
    assert_eq!(read, envelope);
    assert_eq!(find_content_text(&read), Some(&"a\"b\n".to_string()));
}

#[test]
fn token_in_an_envelope_is_extracted() {
    let mut envelope = json(r#"{"content":[{"text":"{}"}]}"#);
    apply_mcp_content_text(&mut envelope, " {\"b\":[1]}\n").unwrap();
    assert_eq!(extract_mcp_content_text(&envelope), Ok(json(r#"{"b":[1]}"#)));
    apply_mcp_content_text(&mut envelope, "opaque").unwrap();
    assert!(extract_mcp_content_text(&envelope).is_err());
}

#[test]
fn finished_envelope_at_the_limit_is_read_back() {
    let nested = "[".repeat(126) + &"]".repeat(126);
    let mut envelope = json(&format!(r#"{{"content":[{{"text":"[]"}}],"deep":{nested}}}"#));
    let body = finalize_mcp_response(&mut envelope, "t").unwrap();
    assert_eq!(read_text(&body), Ok(envelope));
}
