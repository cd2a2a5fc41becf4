use datablind_policy::codec::read_text;
use datablind_policy::config::Config;
use datablind_policy::json::Json;
use datablind_policy::mcp::McpError;
use datablind_policy::payload::read_response;
use datablind_policy::policy::{
    admit_response, after_filter, begin_response, begin_with, finish_work, is_eligible_status,
    resume_response, settle_envelope, start_work, HeaderEdit, Kept, Outcome, Pending, Step, Work,
};
use datablind_policy::service::{
    DataCryptRequest, OverrideCredentials, ServiceCall, ServiceError,
};

fn json(s: &str) -> Json {
    read_text(s).unwrap()
}

fn config() -> Config {
    Config {
        data_blind_api_key: None,
        data_blind_api_uri: None,
        data_crypt_api_key: "crypt-key".to_string(),
        filter_rule: None,
        policy_uses_mcp_response: false,
        proxy_host: None,
        proxy_password: None,
        proxy_port: None,
        sensitive_fields_multi_line: None,
        sensitive_fields_specified: true,
    }
}

fn credentials() -> OverrideCredentials {
    OverrideCredentials {
        token: "tok".to_string(),
        passphrase: "phrase".to_string(),
    }
}

fn begin(config: &Config, payload: &[u8]) -> Step {
    let (step, report) = begin_response(
        config,
        credentials(),
        "key".to_string(),
        "tweak".to_string(),
        payload,
    );
    assert_eq!(report, read_response(payload).1);
    step
}

fn request(data: &str) -> DataCryptRequest {
    DataCryptRequest {
        key: "key".to_string(),
        tweak: Some("tweak".to_string()),
        data: json(data),
        sensitive_fields: None,
        filter_rule: None,
        over_ride_token: "tok".to_string(),
        over_ride_pass_phrase: "phrase".to_string(),
    }
}

fn called(step: Step) -> (ServiceCall, Pending) {
    match step {
        Step::Call(call, pending) => (call, pending),
        Step::Done(outcome) => panic!("no call: {:?}", outcome),
    }
}

fn failed() -> Result<String, ServiceError> {
    Err(ServiceError::NotSent("down".to_string()))
}

fn token(s: &str) -> Result<String, ServiceError> {
    Ok(s.to_string())
}

#[test]
fn status_lists() {
    assert!(is_eligible_status("200", 200));
    assert!(is_eligible_status("200,201", 201));
    assert!(is_eligible_status(" 200 ,\t201\n", 201));
    assert!(is_eligible_status(",,404,", 404));
    assert!(!is_eligible_status("", 200));
    assert!(!is_eligible_status("2001", 200));
    assert!(!is_eligible_status("0200", 200));
    assert!(!is_eligible_status("20 0", 200));
    assert!(!is_eligible_status("200;201", 201));
    assert!(!is_eligible_status("é,201", 200));
    assert!(is_eligible_status("é,201", 201));
}

#[test]
fn eligible_response_gets_its_headers_changed() {
    assert_eq!(
        admit_response("200,201", 200),
        Some(vec![
            HeaderEdit::Remove("content-length".to_string()),
            HeaderEdit::Remove("content-encoding".to_string()),
            HeaderEdit::Remove("transfer-encoding".to_string()),
            HeaderEdit::Put("content-type".to_string(), "application/json".to_string()),
        ])
    );
}

#[test]
fn response_that_is_not_eligible_is_ignored() {
    assert_eq!(admit_response("200,201", 500), None);
}

#[test]
fn specified_fields_are_encrypted() {
    let mut config = config();
    config.sensitive_fields_multi_line = Some(vec!["\"$.a\"".to_string(), "b".to_string()]);
    let (call, pending) = called(begin(&config, br#"{"a":1}"#));
    let mut expected = request(r#"{"a":1}"#);
    expected.sensitive_fields = Some(json(r#"["$.a","b"]"#));
    assert_eq!(
        call,
        ServiceCall {
            path: "/Dev/datacrypt".to_string(),
            request: expected,
            api_key: "crypt-key".to_string(),
        }
    );
    assert_eq!(
        resume_response(&config, pending, token("secret")),
        Step::Done(Outcome::Replace("secret".to_string()))
    );
}

#[test]
fn empty_field_lists_are_left_out() {
    let mut config = config();
    config.sensitive_fields_multi_line = Some(vec![]);
    config.filter_rule = Some(vec![]);
    let (call, _) = called(begin(&config, b"[1]"));
    assert_eq!(call.path, "/Dev/datacrypt");
    assert_eq!(call.request, request("[1]"));
}

#[test]
fn unspecified_fields_are_redacted() {
    let mut config = config();
    config.sensitive_fields_specified = false;
    config.sensitive_fields_multi_line = Some(vec!["ignored".to_string()]);
    config.data_blind_api_key = Some("blind-key".to_string());
    let (call, _) = called(begin(&config, b"plain text"));
    assert_eq!(
        call,
        ServiceCall {
            path: "/Dev/datacrypt-nlp".to_string(),
            request: request(r#"{"value":"plain text"}"#),
            api_key: "blind-key".to_string(),
        }
    );
    config.data_blind_api_key = None;
    let (call, _) = called(begin(&config, b""));
    assert_eq!(call.api_key, "crypt-key");
    assert_eq!(call.request, request("{}"));
}

#[test]
fn filter_feeds_the_encryption() {
    let mut config = config();
    config.filter_rule = Some(vec![r#"{"rule":1}"#.to_string()]);
    let (call, pending) = called(begin(&config, br#"{"a":1}"#));
    let mut expected = request(r#"{"a":1}"#);
    expected.tweak = None;
    expected.filter_rule = Some(json(r#"{"rule":1}"#));
    assert_eq!(
        call,
        ServiceCall {
            path: "/Dev/filter".to_string(),
            request: expected,
            api_key: "crypt-key".to_string(),
        }
    );
    let (call, pending) = called(resume_response(&config, pending, token(" {\"b\":2} ")));
    assert_eq!(call.path, "/Dev/datacrypt");
    assert_eq!(call.request, request(r#"{"b":2}"#));
    assert_eq!(
        resume_response(&config, pending, token("final")),
        Step::Done(Outcome::Replace("final".to_string()))
    );
}

#[test]
fn filter_token_is_served_when_the_encryption_fails() {
    let mut config = config();
    config.filter_rule = Some(vec!["r".to_string()]);
    let (_, pending) = called(begin(&config, br#"{"a":1}"#));
    let (_, pending) = called(resume_response(&config, pending, token(" filtered ")));
    assert_eq!(
        resume_response(&config, pending, failed()),
        Step::Done(Outcome::Replace(" filtered ".to_string()))
    );
}

#[test]
fn failed_filter_is_passed_over() {
    let mut config = config();
    config.filter_rule = Some(vec!["r".to_string()]);
    let (_, pending) = called(begin(&config, br#"{"a":1}"#));
    let (call, pending) = called(resume_response(&config, pending, failed()));
    assert_eq!(call.request, request(r#"{"a":1}"#));
    assert_eq!(
        resume_response(&config, pending, failed()),
        Step::Done(Outcome::Keep(Kept::NoToken))
    );
}

#[test]
fn error_token_of_the_filter_goes_on() {
    let mut config = config();
    config.filter_rule = Some(vec!["r".to_string()]);
    let (_, pending) = called(begin(&config, br#"{"a":1}"#));
    let (call, _) = called(resume_response(&config, pending, token(r#"{"error":"no"}"#)));
    assert_eq!(call.request, request(r#"{"error":"no"}"#));
}

#[test]
fn mcp_data_is_taken_from_and_put_back_into_the_envelope() {
    let mut config = config();
    config.policy_uses_mcp_response = true;
    let body = br#"{"content":[{"type":"text","text":"{\"a\":1}"}],"id":4}"#;
    let (call, pending) = called(begin(&config, body));
    assert_eq!(call.request, request(r#"{"a":1}"#));
    assert_eq!(
        resume_response(&config, pending, token("{\"a\":\"x\"}")),
        Step::Done(Outcome::Replace(
            r#"{"content":[{"text":"{\"a\":\"x\"}","type":"text"}],"id":4}"#.to_string()
        ))
    );
}

#[test]
fn mcp_response_without_data_is_kept() {
    let mut config = config();
    config.policy_uses_mcp_response = true;
    assert_eq!(
        begin(&config, br#"{"content":[]}"#),
        Step::Done(Outcome::Keep(Kept::NoData(McpError::MissingText)))
    );
    assert_eq!(
        begin(&config, b""),
        Step::Done(Outcome::Keep(Kept::NoData(McpError::MissingText)))
    );
    assert_eq!(
        begin(&config, br#"{"content":[{"text":""}]}"#),
        Step::Done(Outcome::Keep(Kept::NoData(McpError::InvalidJson(
            "EOF while parsing a value at line 1 column 0".to_string()
        ))))
    );
}

#[test]
fn mcp_response_without_token_is_kept() {
    let mut config = config();
    config.policy_uses_mcp_response = true;
    let (_, pending) = called(begin(&config, br#"{"content":[{"text":"[]"}]}"#));
    assert_eq!(
        resume_response(&config, pending, failed()),
        Step::Done(Outcome::Keep(Kept::NoToken))
    );
}

fn work(envelope: &str, data: &str) -> Work {
    Work {
        credentials: credentials(),
        key: "key".to_string(),
        tweak: "tweak".to_string(),
        envelope: json(envelope),
        data: json(data),
        final_token: None,
    }
}

#[test]
fn work_is_started_with_the_data_found() {
    let step = start_work(
        &config(),
        credentials(),
        "key".to_string(),
        "tweak".to_string(),
        json("{}"),
        Ok(json("[5]")),
    );
    let (call, pending) = called(step);
    assert_eq!(call.request, request("[5]"));
    assert_eq!(pending, Pending::Encrypt(work("{}", "[5]")));
    let step = begin_with(
        &config(),
        credentials(),
        "key".to_string(),
        "tweak".to_string(),
        json("[6]"),
    );
    assert_eq!(called(step).1, Pending::Encrypt(work("[6]", "[6]")));
}

#[test]
fn work_goes_on_after_the_filter() {
    let (call, _) = called(after_filter(
        &config(),
        work("{}", "[5]"),
        Some(("t".to_string(), json("[7]"))),
    ));
    assert_eq!(call.request, request("[7]"));
    let (call, _) = called(after_filter(&config(), work("{}", "[5]"), None));
    assert_eq!(call.request, request("[5]"));
}

#[test]
fn work_that_cannot_be_finalized_keeps_the_body() {
    let mut config = config();
    config.policy_uses_mcp_response = true;
    let mut done = work("{}", "[]");
    done.final_token = Some("t".to_string());
    assert_eq!(
        finish_work(&config, done),
        Outcome::Keep(Kept::NotFinalized(McpError::MissingItem))
    );
    assert_eq!(
        settle_envelope(Err(McpError::NotWritten("w".to_string()))),
        Outcome::Keep(Kept::NotFinalized(McpError::NotWritten("w".to_string())))
    );
    assert_eq!(
        settle_envelope(Ok("b".to_string())),
        Outcome::Replace("b".to_string())
    );
}
