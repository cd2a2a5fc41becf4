//! What holds of the policy as a whole.

use vstd::prelude::*;

use crate::config::ConfigView;
use crate::json::JsonView;
use crate::mcp::McpErrorView;
use crate::policy::{KeptView, OutcomeView, PendingView, StepView, WorkView};
use crate::service::{CallView, CredentialsView, ServiceErrorView};

verus! {

/// Whatever the value, the data that stands for it is an object or an array.
pub proof fn normalized_data_is_a_container(value: JsonView)
    ensures
        crate::payload::is_container(crate::payload::normalized(value)),
    decreases crate::payload::unread(value),
{
    if let JsonView::Text(text) = value {
        if let Ok(inner) = crate::codec::parsed_text(crate::text::trimmed(text)) {
            if crate::payload::unread(inner) < crate::payload::unread(value) {
                normalized_data_is_a_container(inner);
            }
        }
    }
}

/// Data that was normalized stays as it is when it is normalized again.
pub proof fn normalizing_twice_is_normalizing_once(value: JsonView)
    ensures
        crate::payload::normalized(crate::payload::normalized(value))
            == crate::payload::normalized(value),
{
    normalized_data_is_a_container(value);
}

/// A JSON string that holds the text of an object or an array stands for that object or array.
pub proof fn quoted_container_is_unquoted(text: Seq<char>, value: JsonView)
    requires
        crate::payload::is_container(value),
        crate::codec::is_text_of(crate::text::trimmed(text), value),
    ensures
        crate::payload::normalized(JsonView::Text(text)) == value,
{
    assert(crate::payload::normalized(value) == value);
}

/// The numbers of a value of integers alone are read back.
pub proof fn float_free_values_are_read_back(value: JsonView)
    requires
        crate::codec::float_free(value),
    ensures
        crate::codec::numbers_read_back(value),
    decreases value,
{
    match value {
        JsonView::Array(items) => {
            assert forall|i: int| 0 <= i < items.len() implies crate::codec::numbers_read_back(
                #[trigger] items[i],
            ) by {
                float_free_values_are_read_back(items[i]);
            }
        },
        JsonView::Object(object) => {
            assert forall|key: Seq<char>| #[trigger]
                object.contains_key(key) implies crate::codec::numbers_read_back(object[key]) by {
                float_free_values_are_read_back(object[key]);
            }
        },
        _ => {},
    }
}

/// Trimming a text that was trimmed changes nothing.
pub proof fn trimming_twice_is_trimming_once(text: Seq<char>)
    ensures
        crate::text::trimmed(crate::text::trimmed(text)) == crate::text::trimmed(text),
    decreases text.len(),
{
    if text.len() > 0 {
        if crate::text::is_white_space(text.first()) {
            trimming_twice_is_trimming_once(text.drop_first());
        } else if crate::text::is_white_space(text.last()) {
            trimming_twice_is_trimming_once(text.drop_last());
        }
    }
}

/// A token that is not JSON becomes an object that holds the trimmed token.
pub proof fn unreadable_token_is_wrapped(token: Seq<char>)
    requires
        crate::codec::parsed_text(crate::text::trimmed(token)) is Err,
    ensures
        crate::payload::token_data(
            crate::text::trimmed(token),
            crate::codec::parsed_text(crate::text::trimmed(token)),
        ) == crate::payload::wrapped(JsonView::Text(crate::text::trimmed(token))),
{
    trimming_twice_is_trimming_once(token);
}

/// A gzip stream is not UTF-8, so its bytes are not JSON.
pub proof fn gzip_stream_is_not_utf8(bytes: Seq<u8>)
    requires
        crate::payload::has_gzip_magic(bytes),
    ensures
        !vstd::utf8::valid_utf8(bytes),
        crate::codec::parsed_bytes(bytes) is None,
{
    reveal_with_fuel(vstd::utf8::valid_utf8, 3);
    let rest = vstd::utf8::pop_first_scalar(bytes);
    if vstd::utf8::valid_utf8(bytes) {
        assert(rest[0] == 0x8b);
    }
}

/// A gzip stream that holds JSON is read as the JSON it holds.
pub proof fn gzip_body_is_read_as_what_it_holds(bytes: Seq<u8>)
    requires
        crate::payload::gzip_reading(bytes) is Some,
    ensures
        Some(crate::payload::response_json(bytes)) == crate::payload::gzip_reading(bytes),
{
    gzip_stream_is_not_utf8(bytes);
}

/// A body that is a JSON text in UTF-8 is read as that text is.
pub proof fn utf8_body_is_read_as_its_text(bytes: Seq<u8>, value: JsonView)
    requires
        bytes.len() > 0,
        vstd::utf8::valid_utf8(bytes),
        crate::codec::is_text_of(vstd::utf8::decode_utf8(bytes), value),
    ensures
        crate::payload::response_json(bytes) == value,
{
}

/// A body that is not UTF-8, and no gzip stream that holds JSON, is read through its lossy text.
pub proof fn undecodable_body_is_read_through_its_lossy_text(bytes: Seq<u8>)
    requires
        !vstd::utf8::valid_utf8(bytes),
        crate::payload::gzip_reading(bytes) is None,
    ensures
        ({
            let raw = crate::codec::lossy_text(bytes);
            crate::payload::response_json(bytes) == crate::payload::settled_text(
                raw,
                crate::codec::parsed_text(crate::text::trimmed(raw)),
            )
        }),
{
}

/// A body that is not JSON in any way becomes an object that holds the body as text.
pub proof fn unreadable_body_is_wrapped(bytes: Seq<u8>)
    requires
        bytes.len() > 0,
        crate::payload::content_reading(bytes) is None,
        crate::payload::gzip_reading(bytes) is None,
    ensures
        crate::policy::upstream_json(bytes) == crate::payload::wrapped(
            JsonView::Text(crate::codec::lossy_text(bytes)),
        ),
{
}

/// A text written into an envelope is the text found in it.
pub proof fn written_text_is_found(envelope: JsonView, text: Seq<char>)
    requires
        crate::mcp::has_content_object(envelope),
    ensures
        crate::mcp::has_content_object(crate::mcp::with_content_text(envelope, text)),
        crate::mcp::content_text(crate::mcp::with_content_text(envelope, text)) == Some(text),
{
}

/// Of two texts written into an envelope the second stands.
pub proof fn last_written_text_stands(envelope: JsonView, first: Seq<char>, second: Seq<char>)
    requires
        crate::mcp::has_content_object(envelope),
    ensures
        crate::mcp::with_content_text(crate::mcp::with_content_text(envelope, first), second)
            == crate::mcp::with_content_text(envelope, second),
{
    let root = envelope->Object_0;
    let content = root["content"@];
    let item = crate::mcp::content_item(envelope)->0;
    let once = crate::mcp::with_text(item, first);
    let twice = crate::mcp::with_text(once, second);
    assert(twice->Object_0 =~= crate::mcp::with_text(item, second)->Object_0);
    let inner = crate::mcp::with_child_zero(content, once);
    let outer = crate::mcp::with_child_zero(content, twice);
    match content {
        JsonView::Array(items) => {
            assert(crate::mcp::with_child_zero(inner, twice)->Array_0 =~= outer->Array_0);
        },
        _ => {
            assert(crate::mcp::with_child_zero(inner, twice)->Object_0 =~= outer->Object_0);
        },
    }
    assert(root.insert("content"@, inner).insert("content"@, outer) =~= root.insert(
        "content"@,
        outer,
    ));
}

/// Writing the text that an envelope carries changes nothing.
pub proof fn writing_the_same_text_changes_nothing(envelope: JsonView, text: Seq<char>)
    requires
        crate::mcp::content_text(envelope) == Some(text),
    ensures
        crate::mcp::has_content_object(envelope),
        crate::mcp::with_content_text(envelope, text) == envelope,
{
    let root = envelope->Object_0;
    let content = root["content"@];
    let item = crate::mcp::content_item(envelope)->0;
    assert(crate::mcp::with_text(item, text)->Object_0 =~= item->Object_0);
    match content {
        JsonView::Array(items) => {
            assert(crate::mcp::with_child_zero(content, item)->Array_0 =~= items);
        },
        _ => {
            assert(crate::mcp::with_child_zero(content, item)->Object_0 =~= content->Object_0);
        },
    }
    assert(root.insert("content"@, content) =~= root);
}

/// An envelope into which a text was written nests no deeper than before.
pub proof fn writing_text_nests_no_deeper(envelope: JsonView, text: Seq<char>, room: nat)
    requires
        crate::mcp::has_content_object(envelope),
        crate::codec::nests_within(envelope, room),
    ensures
        crate::codec::nests_within(crate::mcp::with_content_text(envelope, text), room),
{
    let root = envelope->Object_0;
    let content = root["content"@];
    let item = crate::mcp::content_item(envelope)->0;
    let changed = crate::mcp::with_text(item, text);
    assert(root.contains_key("content"@));
    assert(crate::codec::nests_within(content, (room - 1) as nat));
    match content {
        JsonView::Array(items) => {
            assert(item == items[0]);
        },
        _ => {
            assert(content->Object_0.contains_key("0"@));
        },
    }
    assert(crate::codec::nests_within(item, (room - 2) as nat));
    assert forall|key: Seq<char>| #[trigger]
        changed->Object_0.contains_key(key) implies crate::codec::nests_within(
        changed->Object_0[key],
        (room - 3) as nat,
    ) by {
        if key != "text"@ {
            assert(item->Object_0.contains_key(key));
        }
    }
    assert(crate::codec::nests_within(changed, (room - 2) as nat));
    assert(crate::codec::nests_within(
        crate::mcp::with_child_zero(content, changed),
        (room - 1) as nat,
    ));
}

/// Where the numbers of an envelope are read back, those of the envelope with a text written into
/// it are.
pub proof fn writing_text_keeps_the_numbers(envelope: JsonView, text: Seq<char>)
    requires
        crate::mcp::has_content_object(envelope),
        crate::codec::numbers_read_back(envelope),
    ensures
        crate::codec::numbers_read_back(crate::mcp::with_content_text(envelope, text)),
{
    let root = envelope->Object_0;
    let content = root["content"@];
    let item = crate::mcp::content_item(envelope)->0;
    let changed = crate::mcp::with_text(item, text);
    assert(root.contains_key("content"@));
    assert(crate::codec::numbers_read_back(content));
    match content {
        JsonView::Array(items) => {
            assert(item == items[0]);
        },
        _ => {
            assert(content->Object_0.contains_key("0"@));
        },
    }
    assert(crate::codec::numbers_read_back(item));
    assert forall|key: Seq<char>| #[trigger]
        changed->Object_0.contains_key(key) implies crate::codec::numbers_read_back(
        changed->Object_0[key],
    ) by {
        if key != "text"@ {
            assert(item->Object_0.contains_key(key));
        }
    }
    assert(crate::codec::numbers_read_back(changed));
    assert(crate::codec::numbers_read_back(crate::mcp::with_child_zero(content, changed)));
}

/// Writing a text leaves all else in the envelope as it was: its other members, the other items
/// or members of `content`, and the other members of `content[0]`.
pub proof fn writing_text_changes_nothing_else(envelope: JsonView, text: Seq<char>)
    requires
        crate::mcp::has_content_object(envelope),
    ensures
        ({
            let changed = crate::mcp::with_content_text(envelope, text);
            let before = crate::json::member(envelope, "content"@)->0;
            let after = crate::json::member(changed, "content"@)->0;
            &&& forall|key: Seq<char>|
                key != "content"@ ==> #[trigger] crate::json::member(changed, key)
                    == crate::json::member(envelope, key)
            &&& before matches JsonView::Array(items) ==> {
                &&& after is Array
                &&& after->Array_0.len() == items.len()
                &&& forall|i: int| 0 < i < items.len() ==> after->Array_0[i] == items[i]
            }
            &&& before is Object ==> {
                &&& after is Object
                &&& forall|key: Seq<char>|
                    key != "0"@ ==> #[trigger] crate::json::member(after, key)
                        == crate::json::member(before, key)
            }
            &&& forall|key: Seq<char>|
                key != "text"@ ==> #[trigger] crate::json::member(
                    crate::mcp::content_item(changed)->0,
                    key,
                ) == crate::json::member(crate::mcp::content_item(envelope)->0, key)
        }),
{
}

/// The data in an envelope is that of the token that was written into it.
pub proof fn written_token_is_extracted(envelope: JsonView, token: Seq<char>)
    requires
        crate::mcp::has_content_object(envelope),
    ensures
        crate::mcp::extracted(crate::mcp::with_content_text(envelope, token))
            == crate::mcp::extracted_reading(
            crate::codec::parsed_text(crate::text::trimmed(token)),
        ),
{
    written_text_is_found(envelope, token);
}

/// A text that is read as the finished envelope carries the token: who reads the response finds
/// the token at `content[0].text`.
pub proof fn served_text_carries_the_token(envelope: JsonView, token: Seq<char>, text: Seq<char>)
    requires
        crate::mcp::has_content_object(envelope),
        crate::codec::is_text_of(text, crate::mcp::with_content_text(envelope, token)),
    ensures
        crate::codec::parsed_text(text) matches Ok(read) && crate::mcp::content_text(read) == Some(
            token,
        ),
{
    written_text_is_found(envelope, token);
}

/// An envelope that carries data can take a token back: the finished envelope is written.
pub proof fn envelope_with_data_takes_the_token(envelope: JsonView, token: Seq<char>)
    requires
        crate::mcp::extracted(envelope) is Ok,
    ensures
        crate::mcp::has_content_object(envelope),
        crate::mcp::finalized(envelope, token) == Ok::<Seq<char>, McpErrorView>(
            crate::codec::written_text(crate::mcp::with_content_text(envelope, token)),
        ),
{
}

/// The service: the reply to each call.
pub type Service = spec_fn(CallView) -> Result<Seq<char>, ServiceErrorView>;

/// The step after the call of a step.
pub open spec fn advanced(config: ConfigView, step: StepView, service: Service) -> StepView {
    match step {
        StepView::Call(call, pending) => crate::policy::resumed(config, pending, service(call)),
        StepView::Done(_) => step,
    }
}

/// The work as it stands when the data of an upstream body was found.
pub open spec fn new_work(
    credentials: CredentialsView,
    key: Seq<char>,
    tweak: Seq<char>,
    upstream: JsonView,
    data: JsonView,
) -> WorkView {
    WorkView { credentials, key, tweak, envelope: upstream, data, final_token: None }
}

/// The work when the filter has run, or was skipped.
pub open spec fn filtered_work(config: ConfigView, work: WorkView, service: Service) -> WorkView {
    match crate::policy::filter_call(config, work) {
        Some(call) => crate::policy::with_filtered(
            work,
            crate::policy::filtered_by(service(call)),
        ),
        None => work,
    }
}

/// The last token of a run: that of the protection, where it gave one, else that of the filter.
pub open spec fn last_token(config: ConfigView, work: WorkView, service: Service) -> Option<
    Seq<char>,
> {
    let filtered = filtered_work(config, work, service);
    match service(crate::policy::encrypt_call(config, filtered)) {
        Ok(token) => Some(token),
        Err(_) => filtered.final_token,
    }
}

/// What becomes of a body with the last token of its run.
pub open spec fn delivered(
    config: ConfigView,
    upstream: JsonView,
    token: Option<Seq<char>>,
) -> OutcomeView {
    match token {
        Some(t) => if config.policy_uses_mcp_response {
            crate::policy::envelope_outcome(crate::mcp::finalized(upstream, t))
        } else {
            OutcomeView::Replace(t)
        },
        None => OutcomeView::Keep(KeptView::NoToken),
    }
}

/// A run makes at most two calls, and ends with the last token that the service gave: in place of
/// the body, or inside the envelope. Without a token the body is kept.
pub proof fn run_delivers_the_last_token(
    config: ConfigView,
    credentials: CredentialsView,
    key: Seq<char>,
    tweak: Seq<char>,
    upstream: JsonView,
    service: Service,
)
    ensures
        ({
            let first = crate::policy::begun(config, credentials, key, tweak, upstream);
            let last = advanced(config, advanced(config, first, service), service);
            match crate::policy::found_data(config, upstream) {
                Ok(data) => last == StepView::Done(
                    delivered(
                        config,
                        upstream,
                        last_token(
                            config,
                            new_work(credentials, key, tweak, upstream, data),
                            service,
                        ),
                    ),
                ),
                Err(error) => first == StepView::Done(OutcomeView::Keep(KeptView::NoData(error))),
            }
        }),
{
}

/// A run on an MCP envelope that carries data, and that got a token, serves that envelope with the
/// last token in it.
pub proof fn mcp_run_serves_the_envelope(
    config: ConfigView,
    credentials: CredentialsView,
    key: Seq<char>,
    tweak: Seq<char>,
    upstream: JsonView,
    data: JsonView,
    token: Seq<char>,
    service: Service,
)
    requires
        config.policy_uses_mcp_response,
        crate::mcp::extracted(upstream) == Ok::<JsonView, McpErrorView>(data),
        last_token(config, new_work(credentials, key, tweak, upstream, data), service) == Some(
            token,
        ),
    ensures
        ({
            let first = crate::policy::begun(config, credentials, key, tweak, upstream);
            let last = advanced(config, advanced(config, first, service), service);
            last == StepView::Done(
                OutcomeView::Replace(
                    crate::codec::written_text(crate::mcp::with_content_text(upstream, token)),
                ),
            )
        }),
{
    run_delivers_the_last_token(config, credentials, key, tweak, upstream, service);
    envelope_with_data_takes_the_token(upstream, token);
}

/// A call carries the key and the credentials of its response, data that is an object or an array,
/// and a path of the service; only the filter carries a filter rule, and it carries no tweak.
pub open spec fn is_proper_call(
    call: CallView,
    credentials: CredentialsView,
    key: Seq<char>,
    tweak: Seq<char>,
) -> bool {
    &&& crate::payload::is_container(call.request.data)
    &&& call.request.key == key
    &&& call.request.over_ride_token == credentials.token
    &&& call.request.over_ride_pass_phrase == credentials.passphrase
    &&& if call.path == crate::service::FILTER_PATH@ {
        call.request.filter_rule is Some && call.request.tweak is None
    } else {
        &&& call.path == crate::service::DATACRYPT_PATH@ || call.path
            == crate::service::NLP_PATH@
        &&& call.request.filter_rule is None
        &&& call.request.tweak == Some(tweak)
    }
}

/// Every call of a run on an upstream body is proper.
pub proof fn every_call_is_proper(
    config: ConfigView,
    credentials: CredentialsView,
    key: Seq<char>,
    tweak: Seq<char>,
    payload: Seq<u8>,
    service: Service,
)
    ensures
        ({
            let first = crate::policy::begun(
                config,
                credentials,
                key,
                tweak,
                crate::policy::upstream_json(payload),
            );
            let second = advanced(config, first, service);
            &&& first matches StepView::Call(call, _) ==> is_proper_call(
                call,
                credentials,
                key,
                tweak,
            )
            &&& second matches StepView::Call(call, _) ==> is_proper_call(
                call,
                credentials,
                key,
                tweak,
            )
        }),
{
    let upstream = crate::policy::upstream_json(payload);
    normalized_data_is_a_container(crate::payload::response_json(payload));
    if let Some(text) = crate::mcp::content_text(upstream) {
        if let Ok(value) = crate::codec::parsed_text(crate::text::trimmed(text)) {
            normalized_data_is_a_container(value);
        }
    }
    if let Ok(data) = crate::policy::found_data(config, upstream) {
        let work = new_work(credentials, key, tweak, upstream, data);
        if let Some(call) = crate::policy::filter_call(config, work) {
            if let Ok(token) = service(call) {
                let trimmed = crate::text::trimmed(token);
                normalized_data_is_a_container(JsonView::Text(trimmed));
                if let Ok(value) = crate::codec::parsed_text(trimmed) {
                    normalized_data_is_a_container(value);
                }
            }
        }
    }
    reveal_strlit("/Dev/filter");
    reveal_strlit("/Dev/datacrypt");
    reveal_strlit("/Dev/datacrypt-nlp");
    assert(crate::service::FILTER_PATH@.len() != crate::service::DATACRYPT_PATH@.len());
    assert(crate::service::FILTER_PATH@.len() != crate::service::NLP_PATH@.len());
}

/// An object or an array has a description: the data of a call can always be logged.
pub proof fn containers_have_a_description(value: JsonView)
    requires
        crate::payload::is_container(value),
    ensures
        crate::describe::can_describe(value),
{
}

/// Data that was normalized has a description.
pub proof fn normalized_data_has_a_description(value: JsonView)
    ensures
        crate::describe::can_describe(crate::payload::normalized(value)),
{
    normalized_data_is_a_container(value);
}

/// The error payload of the service stands for itself as data, and is described by its error.
pub proof fn error_payload_is_described_by_its_error(value: JsonView, error: Seq<char>)
    requires
        crate::json::member(value, "error"@) == Some(JsonView::Text(error)),
    ensures
        crate::payload::is_error_value(value),
        crate::payload::normalized(value) == value,
        crate::describe::description(value) == crate::describe::error_description(error),
{
}

/// After a filter that failed the data is protected as if no filter were configured.
pub proof fn failed_filter_is_skipped(config: ConfigView, work: WorkView, error: ServiceErrorView)
    ensures
        crate::policy::resumed(config, PendingView::Filter(work), Err(error))
            == crate::policy::first_step(ConfigView { filter_rule: None, ..config }, work),
{
}

/// The data that is protected after the filter is the data in its token.
pub proof fn filter_feeds_the_protection(config: ConfigView, work: WorkView, token: Seq<char>)
    ensures
        crate::policy::resumed(config, PendingView::Filter(work), Ok(token)) matches StepView::Call(
            call,
            _,
        ) && call.request.data == crate::payload::token_data(
            crate::text::trimmed(token),
            crate::codec::parsed_text(crate::text::trimmed(token)),
        ),
{
}

/// A list that is two lists with a comma between names what the one or the other names.
pub proof fn joined_lists_name_what_either_names(a: Seq<char>, b: Seq<char>, status: nat)
    ensures
        crate::policy::lists_status(a + seq![','] + b, status) == (crate::policy::lists_status(
            a,
            status,
        ) || crate::policy::lists_status(b, status)),
{
    let list = a + seq![','] + b;
    let n = a.len() as int;
    let numeral = crate::text::decimal(status);
    assert(list[n] == ',');
    if crate::policy::lists_status(list, status) {
        let (i, j) = choose|i: int, j: int| #[trigger]
            crate::policy::is_piece(list, i, j) && crate::text::trimmed(list.subrange(i, j))
                == numeral;
        if j <= n {
            assert(a.subrange(i, j) =~= list.subrange(i, j));
            assert(crate::policy::is_piece(a, i, j)) by {
                assert(forall|k: int| 0 <= k < n ==> list[k] == a[k]);
            }
        } else {
            assert(i > n);
            let x = i - n - 1;
            let y = j - n - 1;
            assert(b.subrange(x, y) =~= list.subrange(i, j));
            assert(crate::policy::is_piece(b, x, y)) by {
                assert(forall|k: int| 0 <= k < b.len() ==> list[k + n + 1] == #[trigger] b[k]);
            }
        }
    }
    if crate::policy::lists_status(a, status) {
        let (i, j) = choose|i: int, j: int| #[trigger]
            crate::policy::is_piece(a, i, j) && crate::text::trimmed(a.subrange(i, j)) == numeral;
        assert(a.subrange(i, j) =~= list.subrange(i, j));
        assert(crate::policy::is_piece(list, i, j));
    }
    if crate::policy::lists_status(b, status) {
        let (i, j) = choose|i: int, j: int| #[trigger]
            crate::policy::is_piece(b, i, j) && crate::text::trimmed(b.subrange(i, j)) == numeral;
        let x = i + n + 1;
        let y = j + n + 1;
        assert(b.subrange(i, j) =~= list.subrange(x, y));
        assert(crate::policy::is_piece(list, x, y)) by {
            assert(forall|k: int| x <= k < y ==> #[trigger] list[k] == b[k - n - 1]);
            if i > 0 {
                assert(list[x - 1] == b[i - 1]);
            }
        }
    }
}

/// The characters of a numeral are digits.
proof fn lemma_numeral_digits(n: nat)
    ensures
        crate::text::decimal(n).len() > 0,
        forall|k: int|
            0 <= k < crate::text::decimal(n).len() ==> '0' <= #[trigger] crate::text::decimal(n)[k]
                <= '9',
    decreases n,
{
    if n >= 10 {
        lemma_numeral_digits(n / 10);
    }
}

/// Different numbers have different numerals.
pub proof fn numerals_are_distinct(a: nat, b: nat)
    requires
        crate::text::decimal(a) == crate::text::decimal(b),
    ensures
        a == b,
    decreases a,
{
    lemma_numeral_digits(a / 10);
    lemma_numeral_digits(b / 10);
    if a >= 10 && b >= 10 {
        let x = crate::text::decimal(a / 10);
        let y = crate::text::decimal(b / 10);
        assert(crate::text::decimal(a).drop_last() =~= x);
        assert(crate::text::decimal(b).drop_last() =~= y);
        numerals_are_distinct(a / 10, b / 10);
        assert(crate::text::decimal(a).last() == crate::text::digit(a % 10));
        assert(crate::text::decimal(b).last() == crate::text::digit(b % 10));
    } else {
        assert(crate::text::decimal(a).last() == crate::text::digit(a % 10));
        assert(crate::text::decimal(b).last() == crate::text::digit(b % 10));
    }
}

/// A list that is one numeral, with or without white space around it, names that status and no
/// other.
pub proof fn numeral_names_its_status(list: Seq<char>, code: nat, status: nat)
    requires
        crate::text::trimmed(list) == crate::text::decimal(code),
        forall|k: int| 0 <= k < list.len() ==> list[k] != ',',
    ensures
        crate::policy::lists_status(list, status) == (code == status),
{
    if code == status {
        assert(list.subrange(0, list.len() as int) =~= list);
        assert(crate::policy::is_piece(list, 0, list.len() as int));
    }
    if crate::policy::lists_status(list, status) {
        let (i, j) = choose|i: int, j: int| #[trigger]
            crate::policy::is_piece(list, i, j) && crate::text::trimmed(list.subrange(i, j))
                == crate::text::decimal(status);
        assert(i == 0);
        assert(j == list.len());
        assert(list.subrange(i, j) =~= list);
        numerals_are_distinct(code, status);
    }
}

} // verus!
