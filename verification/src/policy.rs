//! The decisions on a response: whether it is protected, which calls of the service that takes,
//! and what becomes of its body.

use vstd::prelude::*;
use vstd::string::*;

use crate::config::{read_configured, Config, ConfigView};
use crate::json::{Json, JsonView};
use crate::mcp::{extract_mcp_content_text, finalize_mcp_response, McpError, McpErrorView};
use crate::payload::{
    datacrypt_data_from_token, normalize_data_for_datacrypt, read_response, BodyReport,
};
use crate::service::{
    CallView, CredentialsView, DataCryptRequest, OverrideCredentials, RequestView, ServiceCall,
    ServiceError, ServiceErrorView, DATACRYPT_PATH, FILTER_PATH, NLP_PATH,
};
use crate::text::{decimal_text, trim};

verus! {

/// The characters from `i` to `j` stand between two commas of a list, or between a comma and an
/// end of the list.
pub open spec fn is_piece(list: Seq<char>, i: int, j: int) -> bool {
    &&& 0 <= i <= j <= list.len()
    &&& i == 0 || list[i - 1] == ','
    &&& j == list.len() || list[j] == ','
    &&& forall|k: int| i <= k < j ==> list[k] != ','
}

/// A comma-separated list of status codes names the status.
pub open spec fn lists_status(list: Seq<char>, status: nat) -> bool {
    exists|i: int, j: int| #[trigger]
        is_piece(list, i, j) && crate::text::trimmed(list.subrange(i, j)) == crate::text::decimal(
            status,
        )
}

/// Whether a comma-separated list of status codes names the status.
pub fn is_eligible_status(list: &str, status: u32) -> (r: bool)
    ensures
        r == lists_status(list@, status as nat),
{
    let wanted = decimal_text(status as u64);
    let n = list.unicode_len();
    let mut start: usize = 0;
    let mut i: usize = 0;
    loop
        invariant
            start <= i <= n,
            n == list@.len(),
            wanted@ == crate::text::decimal(status as nat),
            start == 0 || list@[start - 1] == ',',
            forall|k: int| start <= k < i ==> list@[k] != ',',
            forall|a: int, b: int| #[trigger]
                is_piece(list@, a, b) && a < start ==> crate::text::trimmed(list@.subrange(a, b))
                    != wanted@,
        decreases n - i,
    {
        if i == n || list.get_char(i) == ',' {
            let piece = trim(list.substring_char(start, i)).to_owned();
            if piece == wanted {
                assert(is_piece(list@, start as int, i as int));
                return true;
            }
            assert forall|a: int, b: int| #[trigger] is_piece(list@, a, b) && a <= i implies
                crate::text::trimmed(list@.subrange(a, b)) != wanted@ by {
                if a >= start {
                    if a > start {
                        assert(list@[a - 1] != ',');
                    }
                    if b < i {
                        assert(list@[b] != ',');
                    }
                    if b > i {
                        assert(list@[i as int] == ',');
                    }
                }
            }
            if i == n {
                return false;
            }
            start = i + 1;
        }
        i += 1;
    }
}

/// A change of the headers of a response.
#[derive(Debug, PartialEq, Eq)]
pub enum HeaderEdit {
    Remove(String),
    Put(String, String),
}

/// What a change of a header says.
#[verifier::ext_equal]
pub enum HeaderEditView {
    Remove(Seq<char>),
    Put(Seq<char>, Seq<char>),
}

impl View for HeaderEdit {
    type V = HeaderEditView;

    open spec fn view(&self) -> HeaderEditView {
        match self {
            HeaderEdit::Remove(name) => HeaderEditView::Remove(name@),
            HeaderEdit::Put(name, value) => HeaderEditView::Put(name@, value@),
        }
    }
}

/// What a list of changes says.
pub open spec fn edit_views(edits: Seq<HeaderEdit>) -> Seq<HeaderEditView> {
    Seq::new(edits.len(), |i: int| edits[i]@)
}

/// The changes of the headers of a protected response: what described the length and the encoding
/// of the old body goes, and the new body is JSON.
pub open spec fn protected_headers() -> Seq<HeaderEditView> {
    seq![
        HeaderEditView::Remove("content-length"@),
        HeaderEditView::Remove("content-encoding"@),
        HeaderEditView::Remove("transfer-encoding"@),
        HeaderEditView::Put("content-type"@, "application/json"@),
    ]
}

/// The changes of the headers of a response, where its status is eligible.
pub open spec fn admitted(eligible_codes: Seq<char>, status: nat) -> Option<Seq<HeaderEditView>> {
    if lists_status(eligible_codes, status) {
        Some(protected_headers())
    } else {
        None
    }
}

/// The model of changes that may be missing.
pub open spec fn edits_model(edits: Option<Vec<HeaderEdit>>) -> Option<Seq<HeaderEditView>> {
    match edits {
        Some(v) => Some(edit_views(v@)),
        None => None,
    }
}

/// Whether a response is protected: the changes of its headers, made before its body is read, or
/// nothing where its status is not eligible.
pub fn admit_response(eligible_codes: &str, status: u32) -> (r: Option<Vec<HeaderEdit>>)
    ensures
        match r {
            Some(edits) => lists_status(eligible_codes@, status as nat) && edit_views(edits@)
                == protected_headers(),
            None => !lists_status(eligible_codes@, status as nat),
        },
        edits_model(r) == admitted(eligible_codes@, status as nat),
{
    if !is_eligible_status(eligible_codes, status) {
        return None;
    }
    let mut edits: Vec<HeaderEdit> = Vec::new();
    edits.push(HeaderEdit::Remove("content-length".to_owned()));
    edits.push(HeaderEdit::Remove("content-encoding".to_owned()));
    edits.push(HeaderEdit::Remove("transfer-encoding".to_owned()));
    edits.push(HeaderEdit::Put("content-type".to_owned(), "application/json".to_owned()));
    assert(edit_views(edits@) =~= protected_headers());
    Some(edits)
}

/// The work on one response.
#[derive(Debug, PartialEq)]
pub struct Work {
    /// The credentials of the request.
    pub credentials: OverrideCredentials,
    /// The key of the service.
    pub key: String,
    /// The tweak of the encryption.
    pub tweak: String,
    /// The upstream body.
    pub envelope: Json,
    /// The data of the next call.
    pub data: Json,
    /// The token of the last call that gave one.
    pub final_token: Option<String>,
}

/// What the work on a response holds.
#[verifier::ext_equal]
pub struct WorkView {
    pub credentials: CredentialsView,
    pub key: Seq<char>,
    pub tweak: Seq<char>,
    pub envelope: JsonView,
    pub data: JsonView,
    pub final_token: Option<Seq<char>>,
}

impl View for Work {
    type V = WorkView;

    open spec fn view(&self) -> WorkView {
        WorkView {
            credentials: self.credentials@,
            key: self.key@,
            tweak: self.tweak@,
            envelope: self.envelope@,
            data: self.data@,
            final_token: crate::config::option_text(self.final_token),
        }
    }
}

/// Work that waits for the reply of a call.
#[derive(Debug, PartialEq)]
pub enum Pending {
    Filter(Work),
    Encrypt(Work),
}

/// Why the body of a response stays as it is.
#[derive(Debug, PartialEq, Eq)]
pub enum Kept {
    /// The envelope carries no data.
    NoData(McpError),
    /// No call gave a token.
    NoToken,
    /// The token could not be put into the envelope.
    NotFinalized(McpError),
}

/// What becomes of the body of a response.
#[derive(Debug, PartialEq, Eq)]
pub enum Outcome {
    Replace(String),
    Keep(Kept),
}

/// What is to be done next.
#[derive(Debug, PartialEq)]
pub enum Step {
    /// Make the call, and go on with its reply.
    Call(ServiceCall, Pending),
    /// Nothing more is to be called.
    Done(Outcome),
}

/// Which reply the work waits for.
#[verifier::ext_equal]
pub enum PendingView {
    Filter(WorkView),
    Encrypt(WorkView),
}

/// Why a body stays.
#[verifier::ext_equal]
pub enum KeptView {
    NoData(McpErrorView),
    NoToken,
    NotFinalized(McpErrorView),
}

/// What becomes of a body.
#[verifier::ext_equal]
pub enum OutcomeView {
    Replace(Seq<char>),
    Keep(KeptView),
}

/// What a step says.
#[verifier::ext_equal]
pub enum StepView {
    Call(CallView, PendingView),
    Done(OutcomeView),
}

impl View for Pending {
    type V = PendingView;

    open spec fn view(&self) -> PendingView {
        match self {
            Pending::Filter(work) => PendingView::Filter(work@),
            Pending::Encrypt(work) => PendingView::Encrypt(work@),
        }
    }
}

impl View for Kept {
    type V = KeptView;

    open spec fn view(&self) -> KeptView {
        match self {
            Kept::NoData(error) => KeptView::NoData(error@),
            Kept::NoToken => KeptView::NoToken,
            Kept::NotFinalized(error) => KeptView::NotFinalized(error@),
        }
    }
}

impl View for Outcome {
    type V = OutcomeView;

    open spec fn view(&self) -> OutcomeView {
        match self {
            Outcome::Replace(body) => OutcomeView::Replace(body@),
            Outcome::Keep(reason) => OutcomeView::Keep(reason@),
        }
    }
}

impl View for Step {
    type V = StepView;

    open spec fn view(&self) -> StepView {
        match self {
            Step::Call(call, pending) => StepView::Call(call@, pending@),
            Step::Done(outcome) => StepView::Done(outcome@),
        }
    }
}

/// The call of the filter, where filter rules are configured. The filter gets no tweak.
pub open spec fn filter_call(config: ConfigView, work: WorkView) -> Option<CallView> {
    match crate::config::configured_json(config.filter_rule) {
        Some(rule) => Some(
            CallView {
                path: FILTER_PATH@,
                request: RequestView {
                    key: work.key,
                    tweak: None,
                    data: work.data,
                    sensitive_fields: None,
                    filter_rule: Some(rule),
                    over_ride_token: work.credentials.token,
                    over_ride_pass_phrase: work.credentials.passphrase,
                },
                api_key: config.data_crypt_api_key,
            },
        ),
        None => None,
    }
}

/// The call that protects the data: the encryption of the configured fields, or the redaction of
/// the fields that the service finds.
pub open spec fn encrypt_call(config: ConfigView, work: WorkView) -> CallView {
    let specified = config.sensitive_fields_specified;
    CallView {
        path: if specified {
            DATACRYPT_PATH@
        } else {
            NLP_PATH@
        },
        request: RequestView {
            key: work.key,
            tweak: Some(work.tweak),
            data: work.data,
            sensitive_fields: if specified {
                crate::config::configured_json(config.sensitive_fields_multi_line)
            } else {
                None
            },
            filter_rule: None,
            over_ride_token: work.credentials.token,
            over_ride_pass_phrase: work.credentials.passphrase,
        },
        api_key: if specified {
            config.data_crypt_api_key
        } else {
            config.redaction_key()
        },
    }
}

/// The step that calls for the protection of the data.
pub open spec fn encrypt_step(config: ConfigView, work: WorkView) -> StepView {
    StepView::Call(encrypt_call(config, work), PendingView::Encrypt(work))
}

/// The first step of the work: the filter, where one is configured.
pub open spec fn first_step(config: ConfigView, work: WorkView) -> StepView {
    match filter_call(config, work) {
        Some(call) => StepView::Call(call, PendingView::Filter(work)),
        None => encrypt_step(config, work),
    }
}

/// The step that starts the work on an upstream body with the data found in it.
pub open spec fn started(
    config: ConfigView,
    credentials: CredentialsView,
    key: Seq<char>,
    tweak: Seq<char>,
    envelope: JsonView,
    data: Result<JsonView, McpErrorView>,
) -> StepView {
    match data {
        Ok(found) => first_step(
            config,
            WorkView { credentials, key, tweak, envelope, data: found, final_token: None },
        ),
        Err(error) => StepView::Done(OutcomeView::Keep(KeptView::NoData(error))),
    }
}

/// The data in an upstream body: the body itself, or what its MCP envelope carries.
pub open spec fn found_data(config: ConfigView, upstream: JsonView) -> Result<
    JsonView,
    McpErrorView,
> {
    if config.policy_uses_mcp_response {
        crate::mcp::extracted(upstream)
    } else {
        Ok(upstream)
    }
}

/// The value of an upstream body, as an object or an array.
pub open spec fn upstream_json(payload: Seq<u8>) -> JsonView {
    crate::payload::normalized(crate::payload::response_json(payload))
}

/// The first step on an upstream body.
pub open spec fn begun(
    config: ConfigView,
    credentials: CredentialsView,
    key: Seq<char>,
    tweak: Seq<char>,
    upstream: JsonView,
) -> StepView {
    started(config, credentials, key, tweak, upstream, found_data(config, upstream))
}

/// The work after the filter gave a token and the data in it, or gave none.
pub open spec fn with_filtered(work: WorkView, filtered: Option<(Seq<char>, JsonView)>) -> WorkView {
    match filtered {
        Some(pair) => WorkView { data: pair.1, final_token: Some(pair.0), ..work },
        None => work,
    }
}

/// The work after the protection gave a token, or gave none.
pub open spec fn with_protected(
    work: WorkView,
    reply: Result<Seq<char>, ServiceErrorView>,
) -> WorkView {
    match reply {
        Ok(token) => WorkView { final_token: Some(token), ..work },
        Err(_) => work,
    }
}

/// What the filter gave: the token and the data in it.
pub open spec fn filtered_by(reply: Result<Seq<char>, ServiceErrorView>) -> Option<
    (Seq<char>, JsonView),
> {
    match reply {
        Ok(token) => Some(
            (
                token,
                crate::payload::token_data(
                    crate::text::trimmed(token),
                    crate::codec::parsed_text(crate::text::trimmed(token)),
                ),
            ),
        ),
        Err(_) => None,
    }
}

/// What becomes of the body of a response, from the text of its finished envelope.
pub open spec fn envelope_outcome(text: Result<Seq<char>, McpErrorView>) -> OutcomeView {
    match text {
        Ok(body) => OutcomeView::Replace(body),
        Err(error) => OutcomeView::Keep(KeptView::NotFinalized(error)),
    }
}

/// What becomes of the body of a response when its work is done.
pub open spec fn finished(config: ConfigView, work: WorkView) -> OutcomeView {
    match work.final_token {
        Some(token) => if config.policy_uses_mcp_response {
            envelope_outcome(crate::mcp::finalized(work.envelope, token))
        } else {
            OutcomeView::Replace(token)
        },
        None => OutcomeView::Keep(KeptView::NoToken),
    }
}

/// A body that takes the place of an envelope is read as that envelope with the last token in it,
/// where the envelope came nested no deeper than the reader accepts, as every body that was read
/// does, and where its numbers are integers or are read back from their own texts.
pub open spec fn serves_envelope(
    config: ConfigView,
    work: WorkView,
    outcome: OutcomeView,
) -> bool {
    match (work.final_token, outcome) {
        (Some(token), OutcomeView::Replace(body)) => {
            let envelope = crate::mcp::with_content_text(work.envelope, token);
            config.policy_uses_mcp_response && crate::codec::nests_within(
                work.envelope,
                crate::codec::nesting_limit(),
            ) && crate::codec::numbers_read_back(envelope) ==> crate::codec::is_text_of(
                body,
                envelope,
            )
        },
        _ => true,
    }
}

/// The work that waits for a reply.
pub open spec fn pending_work(pending: PendingView) -> WorkView {
    match pending {
        PendingView::Filter(work) => work,
        PendingView::Encrypt(work) => work,
    }
}

/// The envelope of the work, where work is left, nests no deeper than the reader accepts.
pub open spec fn holds_envelope(step: StepView) -> bool {
    step matches StepView::Call(_, pending) ==> crate::codec::nests_within(
        pending_work(pending).envelope,
        crate::codec::nesting_limit(),
    )
}

/// The step after the reply of a call.
pub open spec fn resumed(
    config: ConfigView,
    pending: PendingView,
    reply: Result<Seq<char>, ServiceErrorView>,
) -> StepView {
    match pending {
        PendingView::Filter(work) => encrypt_step(
            config,
            with_filtered(work, filtered_by(reply)),
        ),
        PendingView::Encrypt(work) => StepView::Done(
            finished(config, with_protected(work, reply)),
        ),
    }
}

/// The call of the filter, where filter rules are configured.
pub fn make_filter_call(config: &Config, work: &Work) -> (r: Option<ServiceCall>)
    ensures
        match r {
            Some(call) => filter_call(config@, work@) == Some(call@),
            None => filter_call(config@, work@) is None,
        },
        r matches Some(call) ==> call.request.data@ == work.data@ && call.api_key@
            == config.data_crypt_api_key@,
{
    match read_configured(&config.filter_rule) {
        Some(rule) => Some(
            ServiceCall {
                path: FILTER_PATH.to_owned(),
                request: DataCryptRequest {
                    key: work.key.clone(),
                    tweak: None,
                    data: work.data.clone(),
                    sensitive_fields: None,
                    filter_rule: Some(rule),
                    over_ride_token: work.credentials.token.clone(),
                    over_ride_pass_phrase: work.credentials.passphrase.clone(),
                },
                api_key: config.data_crypt_api_key.clone(),
            },
        ),
        None => None,
    }
}

/// The call that protects the data.
pub fn make_encrypt_call(config: &Config, work: &Work) -> (r: ServiceCall)
    ensures
        r@ == encrypt_call(config@, work@),
        r.request.data@ == work.data@,
        config.sensitive_fields_specified ==> r.api_key@ == config.data_crypt_api_key@,
{
    let specified = config.sensitive_fields_specified;
    ServiceCall {
        path: if specified {
            DATACRYPT_PATH.to_owned()
        } else {
            NLP_PATH.to_owned()
        },
        request: DataCryptRequest {
            key: work.key.clone(),
            tweak: Some(work.tweak.clone()),
            data: work.data.clone(),
            sensitive_fields: if specified {
                read_configured(&config.sensitive_fields_multi_line)
            } else {
                None
            },
            filter_rule: None,
            over_ride_token: work.credentials.token.clone(),
            over_ride_pass_phrase: work.credentials.passphrase.clone(),
        },
        api_key: if specified {
            config.data_crypt_api_key.clone()
        } else {
            config.redaction_key()
        },
    }
}

/// The step that calls for the protection of the data.
fn ask_for_encryption(config: &Config, work: Work) -> (r: Step)
    ensures
        r@ == encrypt_step(config@, work@),
{
    let call = make_encrypt_call(config, &work);
    Step::Call(call, Pending::Encrypt(work))
}

/// Starts the work on an upstream body with the data found in it.
pub fn start_work(
    config: &Config,
    credentials: OverrideCredentials,
    key: String,
    tweak: String,
    envelope: Json,
    data: Result<Json, McpError>,
) -> (r: Step)
    ensures
        r@ == started(
            config@,
            credentials@,
            key@,
            tweak@,
            envelope@,
            crate::mcp::extraction_model(data),
        ),
{
    match data {
        Ok(found) => {
            let work = Work { credentials, key, tweak, envelope, data: found, final_token: None };
            match make_filter_call(config, &work) {
                Some(call) => Step::Call(call, Pending::Filter(work)),
                None => ask_for_encryption(config, work),
            }
        },
        Err(error) => Step::Done(Outcome::Keep(Kept::NoData(error))),
    }
}

/// Starts the work on an upstream body that was read.
pub fn begin_with(
    config: &Config,
    credentials: OverrideCredentials,
    key: String,
    tweak: String,
    upstream: Json,
) -> (r: Step)
    ensures
        r@ == begun(config@, credentials@, key@, tweak@, upstream@),
        !config.policy_uses_mcp_response ==> (r matches Step::Call(call, _) && call.request.data@
            == upstream@),
        crate::codec::nests_within(upstream@, crate::codec::nesting_limit()) ==> holds_envelope(
            r@,
        ),
{
    let data = if config.policy_uses_mcp_response {
        extract_mcp_content_text(&upstream)
    } else {
        Ok(upstream.clone())
    };
    start_work(config, credentials, key, tweak, upstream, data)
}

/// Starts the work on the body of an eligible response, and tells how the body was read.
pub fn begin_response(
    config: &Config,
    credentials: OverrideCredentials,
    key: String,
    tweak: String,
    payload: &[u8],
) -> (r: (Step, BodyReport))
    ensures
        r.0@ == begun(config@, credentials@, key@, tweak@, upstream_json(payload@)),
        crate::payload::reports_body(r.1, payload@),
        holds_envelope(r.0@),
        !config.policy_uses_mcp_response ==> (r.0 matches Step::Call(call, _) && call.request.data@
            == upstream_json(payload@)),
        r.0 matches Step::Call(call, _) ==> call.request.key@ == key@ && call.request.over_ride_token@
            == credentials.token@ && call.request.over_ride_pass_phrase@ == credentials.passphrase@,
{
    let (body, report) = read_response(payload);
    let upstream = normalize_data_for_datacrypt(body);
    (begin_with(config, credentials, key, tweak, upstream), report)
}

/// The model of what the filter gave.
pub open spec fn filtered_model(filtered: Option<(String, Json)>) -> Option<
    (Seq<char>, JsonView),
> {
    match filtered {
        Some(pair) => Some((pair.0@, pair.1@)),
        None => None,
    }
}

/// Goes on after the filter gave a token and the data in it, or gave none.
pub fn after_filter(config: &Config, work: Work, filtered: Option<(String, Json)>) -> (r: Step)
    ensures
        r@ == encrypt_step(config@, with_filtered(work@, filtered_model(filtered))),
{
    let mut work = work;
    if let Some((token, data)) = filtered {
        work.data = data;
        work.final_token = Some(token);
    }
    ask_for_encryption(config, work)
}

/// What becomes of the body, from the text of the finished envelope.
pub fn settle_envelope(text: Result<String, McpError>) -> (r: Outcome)
    ensures
        r@ == envelope_outcome(crate::mcp::serialization_model(text)),
{
    match text {
        Ok(body) => Outcome::Replace(body),
        Err(error) => Outcome::Keep(Kept::NotFinalized(error)),
    }
}

/// What becomes of the body when the work is done.
pub fn finish_work(config: &Config, work: Work) -> (r: Outcome)
    ensures
        r@ == finished(config@, work@),
        serves_envelope(config@, work@, r@),
{
    match work.final_token {
        Some(token) => if config.policy_uses_mcp_response {
            let mut envelope = work.envelope;
            proof {
                if crate::mcp::has_content_object(envelope@) && crate::codec::nests_within(
                    envelope@,
                    crate::codec::nesting_limit(),
                ) {
                    crate::laws::writing_text_nests_no_deeper(
                        envelope@,
                        token@,
                        crate::codec::nesting_limit(),
                    );
                }
            }
            settle_envelope(finalize_mcp_response(&mut envelope, token.as_str()))
        } else {
            Outcome::Replace(token)
        },
        None => Outcome::Keep(Kept::NoToken),
    }
}

/// Goes on with the work after the reply of its call.
pub fn resume_response(
    config: &Config,
    pending: Pending,
    reply: Result<String, ServiceError>,
) -> (r: Step)
    ensures
        r@ == resumed(config@, pending@, crate::service::reply_model(reply)),
        pending@ matches PendingView::Encrypt(work) ==> r@ matches StepView::Done(outcome)
            ==> serves_envelope(
            config@,
            with_protected(work, crate::service::reply_model(reply)),
            outcome,
        ),
        crate::codec::nests_within(pending_work(pending@).envelope, crate::codec::nesting_limit())
            ==> holds_envelope(r@),
        pending is Encrypt && !config.policy_uses_mcp_response ==> (reply matches Ok(token) ==> (
        r matches Step::Done(Outcome::Replace(body)) && body@ == token@)),
{
    match pending {
        Pending::Filter(work) => {
            let filtered = match reply {
                Ok(token) => {
                    let data = datacrypt_data_from_token(token.as_str());
                    Some((token, data))
                },
                Err(_) => None,
            };
            after_filter(config, work, filtered)
        },
        Pending::Encrypt(work) => {
            let mut work = work;
            if let Ok(token) = reply {
                work.final_token = Some(token);
            }
            Step::Done(finish_work(config, work))
        },
    }
}

} // verus!
