//! The calls of the DataCrypt service and its replies.

use vstd::prelude::*;
use vstd::string::*;

use crate::codec::text_from_utf8_lossy;
use crate::json::{Json, JsonView};
use crate::text::decimal_text;

verus! {

/// The path of the filter operation.
pub const FILTER_PATH: &'static str = "/Dev/filter";

/// The path of the encryption operation.
pub const DATACRYPT_PATH: &'static str = "/Dev/datacrypt";

/// The path of the redaction operation, which finds the sensitive fields itself.
pub const NLP_PATH: &'static str = "/Dev/datacrypt-nlp";

/// Override credentials, read from the inbound request and used for its response.
#[derive(Clone, Debug, PartialEq, Eq)]
pub struct OverrideCredentials {
    pub token: String,
    pub passphrase: String,
}

/// The two texts of the credentials.
#[verifier::ext_equal]
pub struct CredentialsView {
    pub token: Seq<char>,
    pub passphrase: Seq<char>,
}

impl View for OverrideCredentials {
    type V = CredentialsView;

    open spec fn view(&self) -> CredentialsView {
        CredentialsView { token: self.token@, passphrase: self.passphrase@ }
    }
}

/// The credentials of a request that gave none.
pub open spec fn no_credentials() -> CredentialsView {
    CredentialsView { token: Seq::empty(), passphrase: Seq::empty() }
}

/// A text, or the empty text where it is missing.
pub open spec fn text_or_empty(text: Option<Seq<char>>) -> Seq<char> {
    match text {
        Some(s) => s,
        None => Seq::empty(),
    }
}

/// The credentials that two expressions gave.
pub open spec fn evaluated_credentials(
    token: Option<Seq<char>>,
    passphrase: Option<Seq<char>>,
) -> CredentialsView {
    CredentialsView { token: text_or_empty(token), passphrase: text_or_empty(passphrase) }
}

/// The credentials for a response, from those of its request.
pub open spec fn response_credentials(request: Option<CredentialsView>) -> CredentialsView {
    match request {
        Some(credentials) => credentials,
        None => no_credentials(),
    }
}

/// The model of credentials that may be missing.
pub open spec fn credentials_model(credentials: Option<OverrideCredentials>) -> Option<
    CredentialsView,
> {
    match credentials {
        Some(c) => Some(c@),
        None => None,
    }
}

/// What an expression gave, or the empty text where it gave none.
pub fn evaluated_text(text: Option<String>) -> (r: String)
    ensures
        r@ == text_or_empty(crate::config::option_text(text)),
{
    match text {
        Some(s) => s,
        None => String::new(),
    }
}

impl Default for OverrideCredentials {
    fn default() -> (r: OverrideCredentials)
        ensures
            r@ == no_credentials(),
    {
        OverrideCredentials { token: String::new(), passphrase: String::new() }
    }
}

impl OverrideCredentials {
    /// The credentials that the two expressions of a request gave.
    pub fn from_evaluated(token: Option<String>, passphrase: Option<String>) -> (r:
        OverrideCredentials)
        ensures
            r@ == (CredentialsView {
                token: text_or_empty(crate::config::option_text(token)),
                passphrase: text_or_empty(crate::config::option_text(passphrase)),
            }),
            r@ == evaluated_credentials(
                crate::config::option_text(token),
                crate::config::option_text(passphrase),
            ),
    {
        OverrideCredentials { token: evaluated_text(token), passphrase: evaluated_text(passphrase) }
    }

    /// The credentials for a response: those of its request, where the request went on.
    pub fn for_response(request: Option<OverrideCredentials>) -> (r: OverrideCredentials)
        ensures
            match request {
                Some(credentials) => r@ == credentials@,
                None => r@ == no_credentials(),
            },
            r@ == response_credentials(credentials_model(request)),
    {
        match request {
            Some(credentials) => credentials,
            None => OverrideCredentials::default(),
        }
    }
}

/// The body of a request to the service.
#[derive(Debug, PartialEq)]
pub struct DataCryptRequest {
    pub key: String,
    pub tweak: Option<String>,
    pub data: Json,
    pub sensitive_fields: Option<Json>,
    pub filter_rule: Option<Json>,
    pub over_ride_token: String,
    pub over_ride_pass_phrase: String,
}

/// What the body of a request says.
#[verifier::ext_equal]
pub struct RequestView {
    pub key: Seq<char>,
    pub tweak: Option<Seq<char>>,
    pub data: JsonView,
    pub sensitive_fields: Option<JsonView>,
    pub filter_rule: Option<JsonView>,
    pub over_ride_token: Seq<char>,
    pub over_ride_pass_phrase: Seq<char>,
}

impl View for DataCryptRequest {
    type V = RequestView;

    open spec fn view(&self) -> RequestView {
        RequestView {
            key: self.key@,
            tweak: crate::config::option_text(self.tweak),
            data: self.data@,
            sensitive_fields: crate::codec::option_model(self.sensitive_fields),
            filter_rule: crate::codec::option_model(self.filter_rule),
            over_ride_token: self.over_ride_token@,
            over_ride_pass_phrase: self.over_ride_pass_phrase@,
        }
    }
}

/// A call of the service: where to, what, and with which key.
#[derive(Debug, PartialEq)]
pub struct ServiceCall {
    pub path: String,
    pub request: DataCryptRequest,
    pub api_key: String,
}

/// What a call says.
#[verifier::ext_equal]
pub struct CallView {
    pub path: Seq<char>,
    pub request: RequestView,
    pub api_key: Seq<char>,
}

impl View for ServiceCall {
    type V = CallView;

    open spec fn view(&self) -> CallView {
        CallView { path: self.path@, request: self.request@, api_key: self.api_key@ }
    }
}

/// The names and values of a list of headers.
pub open spec fn header_texts(headers: Seq<(String, String)>) -> Seq<(Seq<char>, Seq<char>)> {
    Seq::new(headers.len(), |i: int| (headers[i].0@, headers[i].1@))
}

/// The headers of a request: its content type, and the key where there is one.
pub open spec fn call_headers(api_key: Option<Seq<char>>) -> Seq<(Seq<char>, Seq<char>)> {
    let first = seq![("Content-Type"@, "application/json"@)];
    match api_key {
        Some(key) => first.push(("x-api-key"@, key)),
        None => first,
    }
}

/// The headers of a request.
pub fn request_headers(api_key: Option<String>) -> (r: Vec<(String, String)>)
    ensures
        header_texts(r@) == call_headers(crate::config::option_text(api_key)),
{
    let mut headers: Vec<(String, String)> = Vec::new();
    headers.push(("Content-Type".to_owned(), "application/json".to_owned()));
    if let Some(key) = api_key {
        headers.push(("x-api-key".to_owned(), key));
    }
    assert(header_texts(headers@) =~= call_headers(crate::config::option_text(api_key)));
    headers
}

/// Why a call gave no token.
#[derive(Debug, PartialEq, Eq)]
pub enum ServiceError {
    /// The request got no reply; holds what the client reported.
    NotSent(String),
    /// The reply had another status than success; holds the status and the body.
    Status(u32, String),
    /// A body could not be written or read; holds what was reported.
    BadBody(String),
}

/// What an error says.
#[verifier::ext_equal]
pub enum ServiceErrorView {
    NotSent(Seq<char>),
    Status(u32, Seq<char>),
    BadBody(Seq<char>),
}

impl View for ServiceError {
    type V = ServiceErrorView;

    open spec fn view(&self) -> ServiceErrorView {
        match self {
            ServiceError::NotSent(report) => ServiceErrorView::NotSent(report@),
            ServiceError::Status(status, body) => ServiceErrorView::Status(*status, body@),
            ServiceError::BadBody(report) => ServiceErrorView::BadBody(report@),
        }
    }
}

/// The sentence for an error.
pub open spec fn service_sentence(error: ServiceErrorView) -> Seq<char> {
    match error {
        ServiceErrorView::NotSent(report) => "DataCrypt request failed: "@ + report,
        ServiceErrorView::Status(status, body) => "DataCrypt service returned status "@
            + crate::text::decimal(status as nat) + ": "@ + body,
        ServiceErrorView::BadBody(report) => report,
    }
}

impl ServiceError {
    /// The sentence for the error.
    pub fn message(&self) -> (r: String)
        ensures
            r@ == service_sentence(self@),
    {
        match self {
            ServiceError::NotSent(report) => "DataCrypt request failed: ".to_owned().concat(
                report.as_str(),
            ),
            ServiceError::Status(status, body) => "DataCrypt service returned status ".to_owned().concat(
                decimal_text(*status as u64).as_str(),
            ).concat(": ").concat(body.as_str()),
            ServiceError::BadBody(report) => report.clone(),
        }
    }
}

/// The status of a reply that carries a token.
pub const SUCCESS_STATUS: u32 = 200;

/// What a reply gives, from its status, its body and the reading of its body.
pub open spec fn reply_outcome(
    status: u32,
    body: Seq<u8>,
    parsed: Result<Seq<char>, Seq<char>>,
) -> Result<Seq<char>, ServiceErrorView> {
    if status == SUCCESS_STATUS {
        match parsed {
            Ok(token) => Ok(token),
            Err(report) => Err(ServiceErrorView::BadBody(report)),
        }
    } else {
        Err(ServiceErrorView::Status(status, crate::codec::lossy_text(body)))
    }
}

/// The model of what a reply gives.
pub open spec fn reply_model(reply: Result<String, ServiceError>) -> Result<
    Seq<char>,
    ServiceErrorView,
> {
    match reply {
        Ok(token) => Ok(token@),
        Err(error) => Err(error@),
    }
}

/// What a reply gives: the token of a successful one, else why there is none.
pub fn settle_reply(status: u32, body: &[u8], parsed: Result<String, String>) -> (r: Result<
    String,
    ServiceError,
>)
    ensures
        reply_model(r) == reply_outcome(status, body@, crate::codec::writing_model(parsed)),
        r is Ok == (status == 200 && parsed is Ok),
        parsed matches Ok(token) ==> (r matches Ok(given) ==> given@ == token@),
{
    if status == SUCCESS_STATUS {
        match parsed {
            Ok(token) => Ok(token),
            Err(report) => Err(ServiceError::BadBody(report)),
        }
    } else {
        Err(ServiceError::Status(status, text_from_utf8_lossy(body)))
    }
}

} // verus!
