use datablind_policy::config::{configuration_error, read_configured, Config};
use datablind_policy::json::Json;
use datablind_policy::service::{
    evaluated_text, request_headers, settle_reply, OverrideCredentials, ServiceError,
    DATACRYPT_PATH, FILTER_PATH, NLP_PATH,
};
use datablind_policy::text::{decimal_text, is_text_before};

fn config() -> Config {
    Config {
        data_blind_api_key: None,
        data_blind_api_uri: None,
        data_crypt_api_key: "crypt".to_string(),
        filter_rule: None,
        policy_uses_mcp_response: false,
        proxy_host: None,
        proxy_password: None,
        proxy_port: None,
        sensitive_fields_multi_line: None,
        sensitive_fields_specified: false,
    }
}

#[test]
fn paths_of_the_service() {
    assert_eq!(FILTER_PATH, "/Dev/filter");
    assert_eq!(DATACRYPT_PATH, "/Dev/datacrypt");
    assert_eq!(NLP_PATH, "/Dev/datacrypt-nlp");
}

#[test]
fn headers_of_a_call() {
    let content_type = ("Content-Type".to_string(), "application/json".to_string());
    assert_eq!(request_headers(None), vec![content_type.clone()]);
    assert_eq!(
        request_headers(Some("k".to_string())),
        vec![content_type, ("x-api-key".to_string(), "k".to_string())]
    );
}

#[test]
fn successful_reply_gives_its_token() {
    assert_eq!(
        settle_reply(200, b"ignored", Ok("token".to_string())),
        Ok("token".to_string())
    );
}

#[test]
fn unreadable_reply_is_reported() {
    let error = settle_reply(200, b"{}", Err("missing field `token`".to_string())).unwrap_err();
    assert_eq!(error, ServiceError::BadBody("missing field `token`".to_string()));
    assert_eq!(error.message(), "missing field `token`");
}

#[test]
fn other_status_is_reported_with_the_body() {
    let error = settle_reply(503, b"over\xffload", Ok("token".to_string())).unwrap_err();
    assert_eq!(error, ServiceError::Status(503, "over\u{fffd}load".to_string()));
    assert_eq!(
        error.message(),
        "DataCrypt service returned status 503: over\u{fffd}load"
    );
    assert!(settle_reply(201, b"", Ok("token".to_string())).is_err());
}

#[test]
fn request_that_was_not_sent_is_reported() {
    let error = ServiceError::NotSent("Timeout".to_string());
    assert_eq!(error.message(), "DataCrypt request failed: Timeout");
}

#[test]
fn credentials_default_to_empty_texts() {
    assert_eq!(evaluated_text(None), "");
    assert_eq!(evaluated_text(Some("x".to_string())), "x");
    let credentials = OverrideCredentials::from_evaluated(Some("t".to_string()), None);
    assert_eq!(credentials.token, "t");
    assert_eq!(credentials.passphrase, "");
    assert_eq!(OverrideCredentials::for_response(Some(credentials.clone())), credentials);
    assert_eq!(OverrideCredentials::for_response(None), OverrideCredentials::default());
    assert_eq!(OverrideCredentials::default().token, "");
}

#[test]
fn redaction_key_falls_back() {
    let mut settings = config();
    assert_eq!(settings.redaction_key(), "crypt");
    settings.data_blind_api_key = Some(String::new());
    assert_eq!(settings.redaction_key(), "crypt");
    settings.data_blind_api_key = Some("blind".to_string());
    assert_eq!(settings.redaction_key(), "blind");
}

#[test]
fn configured_lines_are_read_where_there_are_any() {
    assert_eq!(read_configured(&None), None);
    assert_eq!(read_configured(&Some(vec![])), None);
    assert_eq!(read_configured(&Some(vec!["null".to_string()])), Some(Json::Null));
    assert_eq!(
        read_configured(&Some(vec!["a".to_string(), "b".to_string()])),
        Some(Json::Array(vec![Json::Text("a".to_string()), Json::Text("b".to_string())]))
    );
}

#[test]
fn configuration_errors_quote_the_configuration() {
    assert_eq!(
        configuration_error(b"{\xff", "EOF"),
        "Failed to parse configuration '{\u{fffd}'. Cause: EOF"
    );
}

#[test]
fn numerals() {
    assert_eq!(decimal_text(0), "0");
    assert_eq!(decimal_text(1234567890), "1234567890");
    assert_eq!(decimal_text(u64::MAX), "18446744073709551615");
}

#[test]
fn order_of_texts() {
    assert!(is_text_before("", "a"));
    assert!(is_text_before("a", "ab"));
    assert!(is_text_before("Z", "a"));
    assert!(is_text_before("\u{ffff}", "\u{10000}"));
    assert!(!is_text_before("a", "a"));
    assert!(!is_text_before("b", "ab"));
    assert!(!is_text_before("a", ""));
}
