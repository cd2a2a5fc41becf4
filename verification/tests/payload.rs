use std::io::Write;

use datablind_policy::codec::{is_float_free, read_bytes, write_text, NESTING_LIMIT};
use datablind_policy::describe::describe_data_for_log;
use datablind_policy::json::{Json, JsonObject};
use datablind_policy::payload::{
    data_from_reading, datacrypt_data_from_token, decompress_gzip, find_token_fault,
    is_datacrypt_error, is_error_payload, is_gzip, join_values, normalize_data_for_datacrypt, normalize_reading,
    parse_json_lines, parse_response_json, read_content, read_gzip, read_response, settle_reading,
    settle_text, wrap_value, BodyReport, Decompression,
};

fn text(s: &str) -> Json {
    Json::Text(s.to_string())
}

fn number(n: u64) -> Json {
    Json::Number(serde_json::Number::from(n))
}

fn object(entries: Vec<(&str, Json)>) -> Json {
    let mut object = JsonObject::new();
    for (key, value) in entries {
        object.insert(key.to_string(), value);
    }
    Json::Object(object)
}

fn gzip(content: &[u8]) -> Vec<u8> {
    let mut encoder = flate2::write::GzEncoder::new(Vec::new(), flate2::Compression::default());
    encoder.write_all(content).unwrap();
    encoder.finish().unwrap()
}

#[test]
fn empty_body_is_an_empty_object() {
    assert_eq!(parse_response_json(b""), object(vec![]));
}

#[test]
fn json_body_is_read() {
    assert_eq!(
        parse_response_json(br#"{"a":[1]}"#),
        object(vec![("a", Json::Array(vec![number(1)]))])
    );
}

#[test]
fn utf8_body_is_read_as_its_text() {
    let body = " {\"é\": \"\\u00e9😀\"} ";
    assert_eq!(
        parse_response_json(body.as_bytes()),
        object(vec![("é", text("é😀"))])
    );
    assert_eq!(
        parse_response_json(body.as_bytes()),
        datablind_policy::codec::read_text(body).unwrap()
    );
}

#[test]
fn gzip_body_is_read_as_what_it_holds() {
    let bytes = gzip(br#"{"a":1}"#);
    assert!(is_gzip(&bytes));
    assert_eq!(parse_response_json(&bytes), object(vec![("a", number(1))]));
    assert_eq!(
        read_gzip(&bytes),
        (Some(object(vec![("a", number(1))])), Decompression::Content(7))
    );
}

#[test]
fn gzip_content_is_trimmed_beyond_json_white_space() {
    let bytes = gzip("\u{3000}{\"a\":1}\u{a0}".as_bytes());
    assert_eq!(parse_response_json(&bytes), object(vec![("a", number(1))]));
}

#[test]
fn broken_gzip_body_is_text() {
    let mut bytes = gzip(br#"{"a":1}"#);
    bytes.truncate(bytes.len() - 9);
    assert_eq!(read_gzip(&bytes), (None, Decompression::Failed));
    let raw = String::from_utf8_lossy(&bytes).into_owned();
    assert_eq!(parse_response_json(&bytes), text(&raw));
}

#[test]
fn gzip_body_without_json_is_text() {
    let bytes = gzip(b"not json");
    assert_eq!(read_gzip(&bytes), (None, Decompression::Content(8)));
    let raw = String::from_utf8_lossy(&bytes).into_owned();
    assert_eq!(parse_response_json(&bytes), text(&raw));
}

#[test]
fn plain_body_is_text() {
    assert_eq!(parse_response_json(b"hello"), text("hello"));
    assert_eq!(parse_response_json(b"h\xffi"), text("h\u{fffd}i"));
    assert_eq!(read_gzip(b"hello"), (None, Decompression::NotTried));
}

#[test]
fn body_is_trimmed_beyond_json_white_space() {
    assert_eq!(
        parse_response_json("\u{2003}[true]\u{2028}".as_bytes()),
        Json::Array(vec![Json::Bool(true)])
    );
}

#[test]
fn gzip_body_is_read_as_its_content_would_be() {
    for content in [
        "{\"a\":[1,\"é\"]}".as_bytes(),
        " null\n".as_bytes(),
        "\"[1]\"".as_bytes(),
        "\u{3000}{\"a\":1}\u{a0}".as_bytes(),
    ] {
        assert_eq!(parse_response_json(&gzip(content)), parse_response_json(content));
    }
    // What is not JSON is the text of the stream, not of its content.
    assert_ne!(parse_response_json(&gzip(b"x")), parse_response_json(b"x"));
    assert_ne!(parse_response_json(&gzip(b"")), parse_response_json(b""));
}

#[test]
fn body_reports() {
    let report = |bytes: &[u8]| {
        let (value, report) = read_response(bytes);
        assert_eq!(value, parse_response_json(bytes));
        report
    };
    let expected = |decompression: Decompression, unreadable: bool| BodyReport {
        decompression,
        unreadable,
    };
    assert_eq!(report(b""), expected(Decompression::NotTried, false));
    assert_eq!(report(b"[1]"), expected(Decompression::NotTried, false));
    assert_eq!(
        report("\u{2003}[1]".as_bytes()),
        expected(Decompression::NotTried, false)
    );
    assert_eq!(report(b"hello"), expected(Decompression::NotTried, true));
    assert_eq!(
        report(&gzip(b"{\"a\":1}")),
        expected(Decompression::Content(7), false)
    );
    assert_eq!(
        report(&gzip(b"not json")),
        expected(Decompression::Content(8), true)
    );
    assert_eq!(
        report(&[0x1f, 0x8b, 0]),
        expected(Decompression::Failed, true)
    );
}

#[test]
fn body_that_is_not_utf8_is_read_through_its_lossy_text() {
    let body = b"[\"a\xffb\"]";
    assert_eq!(read_bytes(body), None);
    let expected = Json::Array(vec![text("a\u{fffd}b")]);
    assert_eq!(parse_response_json(body), expected);
    assert_eq!(
        read_response(body),
        (
            expected.clone(),
            BodyReport { decompression: Decompression::NotTried, unreadable: false }
        )
    );
    assert_eq!(parse_response_json(&gzip(body)), expected);
    // A byte that is left of a character, outside any string.
    assert_eq!(parse_response_json(b"[1]\x80"), text("[1]\u{fffd}"));
}

#[test]
fn gzip_stream_is_never_json() {
    assert_eq!(read_bytes(&gzip(b"1")), None);
    assert!(std::str::from_utf8(&gzip(b"1")).is_err());
}

#[test]
fn content_of_gzip_streams() {
    assert_eq!(decompress_gzip(&gzip(b"abc")), Some(b"abc".to_vec()));
    assert_eq!(decompress_gzip(&gzip(b"")), Some(vec![]));
    assert_eq!(decompress_gzip(b"abc"), None);
    assert_eq!(decompress_gzip(b""), None);
}

#[test]
fn gzip_member_that_is_cut_short_has_no_content() {
    let long = "x".repeat(70_000);
    for content in [b"{\"a\":1}".as_slice(), b"", long.as_bytes()] {
        let member = gzip(content);
        for end in 0..member.len() {
            assert_eq!(decompress_gzip(&member[..end]), None);
        }
        assert!(decompress_gzip(&member).is_some());
    }
    let member = gzip(b"{\"a\":1}");
    let cut = &member[..member.len() - 1];
    assert_eq!(
        read_response(cut),
        (
            text(&String::from_utf8_lossy(cut)),
            BodyReport { decompression: Decompression::Failed, unreadable: true }
        )
    );
}

#[test]
fn bytes_behind_a_gzip_member_change_nothing() {
    let member = gzip(b"{\"a\":1}");
    for more in [b"x".to_vec(), vec![0; 9], gzip(b"[2]"), member[..3].to_vec(), vec![7; 70_000]] {
        let mut bytes = member.clone();
        bytes.extend_from_slice(&more);
        assert_eq!(decompress_gzip(&bytes), Some(b"{\"a\":1}".to_vec()));
        assert_eq!(parse_response_json(&bytes), object(vec![("a", number(1))]));
    }
}

#[test]
fn gzip_stream_with_a_wrong_trailer_is_text() {
    let member = gzip(b"{\"a\":1}");
    // The checksum stands before the size in the last eight bytes.
    for place in [member.len() - 8, member.len() - 4] {
        let mut bytes = member.clone();
        bytes[place] ^= 1;
        assert_eq!(decompress_gzip(&bytes), None);
        assert_eq!(
            read_response(&bytes),
            (
                text(&String::from_utf8_lossy(&bytes)),
                BodyReport { decompression: Decompression::Failed, unreadable: true }
            )
        );
    }
}

#[test]
fn what_is_read_nests_within_the_limit() {
    let nested = |depth: usize| "[".repeat(depth) + &"]".repeat(depth);
    let deepest = parse_response_json(nested(NESTING_LIMIT).as_bytes());
    assert!(is_float_free(&deepest, NESTING_LIMIT));
    assert!(!is_float_free(&deepest, NESTING_LIMIT - 1));
    let deeper = nested(NESTING_LIMIT + 1);
    assert_eq!(parse_response_json(deeper.as_bytes()), text(&deeper));
    assert_eq!(
        datacrypt_data_from_token(&deeper),
        object(vec![("value", text(&deeper))])
    );
}

#[test]
fn gzip_magic() {
    assert!(is_gzip(&[0x1f, 0x8b]));
    assert!(!is_gzip(&[0x1f]));
    assert!(!is_gzip(&[0x1f, 0x8c, 0x8b]));
    assert!(!is_gzip(&[]));
}

#[test]
fn readings_are_settled_in_order() {
    assert_eq!(
        settle_reading(Some(number(1)), Some(number(2)), "x".to_string()),
        (number(1), false)
    );
    assert_eq!(
        settle_reading(None, Some(number(2)), "x".to_string()),
        (number(2), false)
    );
    assert_eq!(
        settle_reading(None, None, " 3 ".to_string()),
        (number(3), false)
    );
    assert_eq!(
        settle_reading(None, None, " x ".to_string()),
        (text(" x "), true)
    );
    assert_eq!(settle_text("t".to_string(), Ok(Json::Null)), Json::Null);
    assert_eq!(settle_text("t".to_string(), Err("e".to_string())), text("t"));
    assert_eq!(read_content(b" 4 "), Some(number(4)));
    assert_eq!(read_content(b"x"), None);
}

#[test]
fn single_line_is_used_as_it_is() {
    assert_eq!(
        parse_json_lines(&[r#"{"a":1}"#.to_string()]),
        object(vec![("a", number(1))])
    );
    assert_eq!(parse_json_lines(&["plain".to_string()]), text("plain"));
}

#[test]
fn several_lines_are_an_array() {
    assert_eq!(
        parse_json_lines(&["1".to_string(), "x y".to_string(), "[]".to_string()]),
        Json::Array(vec![number(1), text("x y"), Json::Array(vec![])])
    );
    assert_eq!(parse_json_lines(&[]), Json::Array(vec![]));
}

#[test]
fn values_are_joined() {
    assert_eq!(join_values(vec![number(1)]), number(1));
    assert_eq!(join_values(vec![]), Json::Array(vec![]));
    assert_eq!(
        join_values(vec![number(1), Json::Null]),
        Json::Array(vec![number(1), Json::Null])
    );
}

#[test]
fn containers_stay_as_they_are() {
    let value = object(vec![("a", number(1))]);
    assert_eq!(normalize_data_for_datacrypt(value.clone()), value);
    let list = Json::Array(vec![text("x")]);
    assert_eq!(normalize_data_for_datacrypt(list.clone()), list);
}

#[test]
fn scalars_are_wrapped() {
    assert_eq!(
        normalize_data_for_datacrypt(Json::Null),
        object(vec![("value", Json::Null)])
    );
    assert_eq!(
        normalize_data_for_datacrypt(number(3)),
        object(vec![("value", number(3))])
    );
    assert_eq!(
        normalize_data_for_datacrypt(text(" plain ")),
        object(vec![("value", text(" plain "))])
    );
    assert_eq!(wrap_value(Json::Bool(true)), object(vec![("value", Json::Bool(true))]));
}

#[test]
fn quoted_json_is_unquoted() {
    assert_eq!(
        normalize_data_for_datacrypt(text(r#" {"a":1} "#)),
        object(vec![("a", number(1))])
    );
    // A document quoted twice.
    assert_eq!(
        normalize_data_for_datacrypt(text(r#""\"[1]\"""#)),
        Json::Array(vec![number(1)])
    );
    // A quoted scalar is wrapped without its quotes.
    assert_eq!(
        normalize_data_for_datacrypt(text(r#""x""#)),
        object(vec![("value", text("x"))])
    );
    assert_eq!(
        normalize_data_for_datacrypt(text("12")),
        object(vec![("value", number(12))])
    );
}

#[test]
fn normalizing_twice_changes_nothing() {
    let once = normalize_data_for_datacrypt(text("plain"));
    assert_eq!(normalize_data_for_datacrypt(once.clone()), once);
}

#[test]
fn readings_are_normalized() {
    assert_eq!(
        normalize_reading("t".to_string(), Err("e".to_string())),
        object(vec![("value", text("t"))])
    );
    assert_eq!(
        normalize_reading("t".to_string(), Ok(text("[]"))),
        Json::Array(vec![])
    );
}

#[test]
fn error_payloads_are_recognized() {
    assert!(is_datacrypt_error(r#"{"error":"bad key"}"#));
    assert!(is_datacrypt_error(r#" {"error":"","x":1} "#));
    assert!(!is_datacrypt_error(r#"{"error":1}"#));
    assert!(!is_datacrypt_error(r#"{"err":"x"}"#));
    assert!(!is_datacrypt_error(r#"["error"]"#));
    assert!(!is_datacrypt_error("error"));
    assert!(is_error_payload(&Ok(object(vec![("error", text("e"))]))));
    assert!(!is_error_payload(&Err("e".to_string())));
}

#[test]
fn token_becomes_data() {
    assert_eq!(
        datacrypt_data_from_token(" {\"a\":1}\n"),
        object(vec![("a", number(1))])
    );
    assert_eq!(
        datacrypt_data_from_token("\"[2]\""),
        Json::Array(vec![number(2)])
    );
    assert_eq!(
        datacrypt_data_from_token("  opaque token "),
        object(vec![("value", text("opaque token"))])
    );
    assert_eq!(
        data_from_reading("t".to_string(), Ok(Json::Null)),
        object(vec![("value", Json::Null)])
    );
    assert_eq!(
        data_from_reading("t".to_string(), Err("e".to_string())),
        object(vec![("value", text("t"))])
    );
}

#[test]
fn token_faults() {
    assert_eq!(find_token_fault(" {\"a\":1} "), None);
    assert_eq!(find_token_fault("\u{3000}7"), None);
    assert_eq!(
        find_token_fault("  opaque"),
        Some("expected value at line 1 column 1".to_string())
    );
    assert_eq!(
        find_token_fault(""),
        Some("EOF while parsing a value at line 1 column 0".to_string())
    );
}

#[test]
fn written_container_is_the_data_of_its_text() {
    let value = object(vec![
        ("a", Json::Array(vec![number(u64::MAX), text(" \"\n"), Json::Null])),
        ("b", Json::Number(serde_json::Number::from(i64::MIN))),
    ]);
    assert!(is_float_free(&value, NESTING_LIMIT));
    let token = write_text(&value).unwrap();
    assert_eq!(datacrypt_data_from_token(&token), value);
    assert_eq!(datacrypt_data_from_token(&format!("\r\n {token}\t")), value);
}

#[test]
fn error_token_is_described_by_its_error() {
    for (token, described) in [
        ("{\"error\":\"bad key\"}", "error={\"error\":\"bad key\"}"),
        (" {\"error\":\"\\u00e9\",\"x\":1}\n", "error={\"error\":\"é\"}"),
    ] {
        assert!(is_datacrypt_error(token));
        assert_eq!(
            describe_data_for_log(&datacrypt_data_from_token(token)),
            described
        );
    }
}
