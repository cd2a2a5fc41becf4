//! Payloads: what an upstream body, a configured line and a service token hold as JSON.

use vstd::prelude::*;
use vstd::string::*;

use crate::codec::{gunzip, read_bytes, read_text, text_from_utf8_lossy};
use crate::json::{Json, JsonObject, JsonView};
use crate::text::trim;

verus! {

/// The first two bytes are those of a gzip stream.
pub open spec fn has_gzip_magic(bytes: Seq<u8>) -> bool {
    bytes.len() >= 2 && bytes[0] == 0x1f && bytes[1] == 0x8b
}

/// The first of two values, or the second where the first is missing.
pub open spec fn first_of(a: Option<JsonView>, b: Option<JsonView>) -> Option<JsonView> {
    if a is Some {
        a
    } else {
        b
    }
}

/// What bytes hold as JSON: as they stand, or else as trimmed text.
pub open spec fn content_reading(bytes: Seq<u8>) -> Option<JsonView> {
    first_of(
        crate::codec::parsed_bytes(bytes),
        crate::codec::value_read(
            crate::codec::parsed_text(crate::text::trimmed(crate::codec::lossy_text(bytes))),
        ),
    )
}

/// The content of a gzip stream.
pub open spec fn gzip_content(bytes: Seq<u8>) -> Option<Seq<u8>> {
    if has_gzip_magic(bytes) {
        crate::codec::gunzipped(bytes)
    } else {
        None
    }
}

/// The bytes are a gzip stream that ends with its first member: without their last byte they are no
/// whole stream.
pub open spec fn is_gzip_member(bytes: Seq<u8>) -> bool {
    gzip_content(bytes) is Some && gzip_content(bytes.drop_last()) is None
}

/// The bytes are the start of others, and not all of them.
pub open spec fn is_cut_from(bytes: Seq<u8>, whole: Seq<u8>) -> bool {
    bytes.len() < whole.len() && bytes.is_prefix_of(whole)
}

/// What a gzip stream holds as JSON.
pub open spec fn gzip_reading(bytes: Seq<u8>) -> Option<JsonView> {
    match gzip_content(bytes) {
        Some(content) => content_reading(content),
        None => None,
    }
}

/// A text where it was read as JSON: the value; else the text itself.
pub open spec fn settled_text(raw: Seq<char>, reading: Result<JsonView, Seq<char>>) -> JsonView {
    match reading {
        Ok(value) => value,
        Err(_) => JsonView::Text(raw),
    }
}

/// The value of a body: what the bytes gave, else what the gzip stream gave, else the body as text.
pub open spec fn settled_reading(
    direct: Option<JsonView>,
    unzipped: Option<JsonView>,
    raw: Seq<char>,
) -> JsonView {
    match first_of(direct, unzipped) {
        Some(value) => value,
        None => settled_text(raw, crate::codec::parsed_text(crate::text::trimmed(raw))),
    }
}

/// The value of an upstream body.
pub open spec fn response_json(bytes: Seq<u8>) -> JsonView {
    if bytes.len() == 0 {
        JsonView::Object(Map::empty())
    } else {
        settled_reading(
            crate::codec::parsed_bytes(bytes),
            gzip_reading(bytes),
            crate::codec::lossy_text(bytes),
        )
    }
}

/// What came of decompressing a body.
#[derive(Debug, PartialEq, Eq)]
pub enum Decompression {
    /// The body does not start as a gzip stream does.
    NotTried,
    /// The body is no whole gzip stream.
    Failed,
    /// The size of the content.
    Content(usize),
}

/// How a body was read.
#[derive(Debug, PartialEq, Eq)]
pub struct BodyReport {
    pub decompression: Decompression,
    /// The body is not empty and is not JSON in any way: it is used as text.
    pub unreadable: bool,
}

/// The report is true of the gzip stream in a body.
pub open spec fn reports_decompression(report: Decompression, bytes: Seq<u8>) -> bool {
    if has_gzip_magic(bytes) {
        match crate::codec::gunzipped(bytes) {
            Some(content) => report matches Decompression::Content(size) && size == content.len(),
            None => report is Failed,
        }
    } else {
        report is NotTried
    }
}

/// A body is not empty, and neither its bytes nor a gzip stream in them hold JSON.
pub open spec fn is_unreadable(bytes: Seq<u8>) -> bool {
    bytes.len() > 0 && content_reading(bytes) is None && gzip_reading(bytes) is None
}

/// The report is true of a body.
pub open spec fn reports_body(report: BodyReport, bytes: Seq<u8>) -> bool {
    &&& reports_decompression(report.decompression, bytes)
    &&& report.unreadable == is_unreadable(bytes)
}

/// Whether the first two bytes are those of a gzip stream.
pub fn is_gzip(bytes: &[u8]) -> (r: bool)
    ensures
        r == has_gzip_magic(bytes@),
{
    bytes.len() >= 2 && bytes[0] == 0x1f && bytes[1] == 0x8b
}

/// The value that a text was read as, or the text itself as a JSON string.
pub fn settle_text(raw: String, reading: Result<Json, String>) -> (r: Json)
    ensures
        r@ == settled_text(raw@, crate::codec::read_model(reading)),
{
    match reading {
        Ok(value) => value,
        Err(_) => Json::Text(raw),
    }
}

/// A value that was read, if one was, nests no deeper than the reader accepts.
pub open spec fn nests_if_any(value: Option<Json>) -> bool {
    value matches Some(v) ==> crate::codec::nests_within(v@, crate::codec::nesting_limit())
}

/// The value of a body, from what its bytes and its gzip content gave and from its text; and
/// whether none of them was JSON.
pub fn settle_reading(direct: Option<Json>, unzipped: Option<Json>, raw: String) -> (r: (
    Json,
    bool,
))
    ensures
        r.0@ == settled_reading(
            crate::codec::option_model(direct),
            crate::codec::option_model(unzipped),
            raw@,
        ),
        r.1 == (direct is None && unzipped is None && crate::codec::parsed_text(
            crate::text::trimmed(raw@),
        ) is Err),
        direct is None && unzipped is None && raw@.len() > 0 && raw@[0] as u32 == 0x1f ==> r.1,
        nests_if_any(direct) && nests_if_any(unzipped) ==> crate::codec::nests_within(
            r.0@,
            crate::codec::nesting_limit(),
        ),
{
    match direct {
        Some(value) => (value, false),
        None => match unzipped {
            Some(value) => (value, false),
            None => {
                let reading = read_text(trim(raw.as_str()));
                proof {
                    if raw@.len() > 0 && raw@[0] as u32 == 0x1f {
                        lemma_trimmed_first(raw@);
                    }
                }
                let unreadable = reading.is_err();
                (settle_text(raw, reading), unreadable)
            },
        },
    }
}

/// Trimming leaves a first character that is not white space in its place.
proof fn lemma_trimmed_first(text: Seq<char>)
    requires
        text.len() > 0,
        !crate::text::is_white_space(text[0]),
    ensures
        crate::text::trimmed(text).len() > 0,
        crate::text::trimmed(text)[0] == text[0],
    decreases text.len(),
{
    if crate::text::is_white_space(text.last()) {
        lemma_trimmed_first(text.drop_last());
    }
}

/// Reads decompressed content as JSON: as it stands, or else as trimmed text. What it is read as
/// is what it would be read as if it were the body.
pub fn read_content(bytes: &[u8]) -> (r: Option<Json>)
    ensures
        crate::codec::option_model(r) == content_reading(bytes@),
        r matches Some(value) ==> response_json(bytes@) == value@,
        nests_if_any(r),
{
    match read_bytes(bytes) {
        Some(value) => Some(value),
        None => {
            let raw = text_from_utf8_lossy(bytes);
            match read_text(trim(raw.as_str())) {
                Ok(value) => {
                    proof {
                        if has_gzip_magic(bytes@) {
                            lemma_trimmed_first(raw@);
                        }
                    }
                    Some(value)
                },
                Err(_) => None,
            }
        },
    }
}

/// The content of a gzip stream. Only bytes that start as a gzip stream does have one. Bytes behind
/// the first member change nothing, and no part of a member that was cut short has content.
pub fn decompress_gzip(bytes: &[u8]) -> (r: Option<Vec<u8>>)
    ensures
        match r {
            Some(content) => gzip_content(bytes@) == Some(content@),
            None => gzip_content(bytes@) is None,
        },
        r is Some ==> has_gzip_magic(bytes@),
        forall|more: Seq<u8>|
            r is Some ==> #[trigger] gzip_content(bytes@ + more) == gzip_content(bytes@),
        forall|member: Seq<u8>| #[trigger]
            is_gzip_member(member) && is_cut_from(bytes@, member) ==> r is None,
{
    let r = gunzip(bytes);
    proof {
        assert forall|more: Seq<u8>| r is Some implies #[trigger] gzip_content(bytes@ + more)
            == gzip_content(bytes@) by {
            assert(crate::codec::gunzipped(bytes@ + more) == crate::codec::gunzipped(bytes@));
        }
        assert forall|member: Seq<u8>| #[trigger]
            is_gzip_member(member) && is_cut_from(bytes@, member) implies r is None by {
            let more = member.drop_last().skip(bytes@.len() as int);
            assert(bytes@ + more =~= member.drop_last());
            if r is Some {
                assert(gzip_content(bytes@ + more) == gzip_content(bytes@));
            }
        }
    }
    r
}

/// Reads a gzip stream as JSON, and tells what came of decompressing it.
pub fn read_gzip(bytes: &[u8]) -> (r: (Option<Json>, Decompression))
    ensures
        crate::codec::option_model(r.0) == gzip_reading(bytes@),
        reports_decompression(r.1, bytes@),
        r.0 matches Some(value) ==> gzip_content(bytes@) matches Some(content) && response_json(
            content,
        ) == value@,
        nests_if_any(r.0),
        forall|more: Seq<u8>|
            r.0 is Some ==> #[trigger] gzip_reading(bytes@ + more) == gzip_reading(bytes@),
        forall|member: Seq<u8>| #[trigger]
            is_gzip_member(member) && is_cut_from(bytes@, member) ==> !(r.1 is Content),
{
    if !is_gzip(bytes) {
        return (None, Decompression::NotTried);
    }
    match decompress_gzip(bytes) {
        Some(content) => {
            proof {
                assert forall|more: Seq<u8>| #[trigger] gzip_reading(bytes@ + more)
                    == gzip_reading(bytes@) by {
                    assert(gzip_content(bytes@ + more) == gzip_content(bytes@));
                }
            }
            (read_content(content.as_slice()), Decompression::Content(content.len()))
        },
        None => (None, Decompression::Failed),
    }
}

/// The value of a body fits what the body holds as a gzip stream: a stream that holds JSON is read
/// as its content would be, with or without bytes behind it; any other stream is text.
pub open spec fn fits_gzip(value: JsonView, bytes: Seq<u8>) -> bool {
    &&& gzip_content(bytes) matches Some(content) ==> (content_reading(content) is Some ==> value
        == response_json(content))
    &&& gzip_reading(bytes) is Some ==> forall|more: Seq<u8>| #[trigger]
        response_json(bytes + more) == value
    &&& has_gzip_magic(bytes) && gzip_reading(bytes) is None ==> value == JsonView::Text(
        crate::codec::lossy_text(bytes),
    )
}

/// Reads an upstream body as JSON when possible, and tells how. An empty body is an empty object; a
/// body that is not JSON may be a gzip stream that holds JSON; what remains is a JSON string. A
/// gzip member that was cut short has no content.
pub fn read_response(bytes: &[u8]) -> (r: (Json, BodyReport))
    ensures
        r.0@ == response_json(bytes@),
        reports_body(r.1, bytes@),
        fits_gzip(r.0@, bytes@),
        forall|member: Seq<u8>| #[trigger]
            is_gzip_member(member) && is_cut_from(bytes@, member) ==> !(r.1.decompression is Content),
        crate::codec::nests_within(r.0@, crate::codec::nesting_limit()),
{
    if bytes.len() == 0 {
        return (
            Json::Object(JsonObject::new()),
            BodyReport { decompression: Decompression::NotTried, unreadable: false },
        );
    }
    let direct = read_bytes(bytes);
    proof {
        if has_gzip_magic(bytes@) {
            crate::laws::gzip_stream_is_not_utf8(bytes@);
        }
    }
    let (unzipped, decompression) = if direct.is_some() {
        (None, Decompression::NotTried)
    } else {
        read_gzip(bytes)
    };
    proof {
        if gzip_reading(bytes@) is Some {
            assert forall|more: Seq<u8>| #[trigger] response_json(bytes@ + more)
                == gzip_reading(bytes@)->0 by {
                assert(gzip_reading(bytes@ + more) == gzip_reading(bytes@));
                crate::laws::gzip_body_is_read_as_what_it_holds(bytes@ + more);
            }
        }
    }
    let (value, unreadable) = settle_reading(direct, unzipped, text_from_utf8_lossy(bytes));
    (value, BodyReport { decompression, unreadable })
}

/// Reads an upstream body as JSON when possible. An empty body is an empty object; a body that is
/// not JSON may be a gzip stream that holds JSON; what remains is a JSON string.
pub fn parse_response_json(bytes: &[u8]) -> (r: Json)
    ensures
        r@ == response_json(bytes@),
        fits_gzip(r@, bytes@),
        crate::codec::nests_within(r@, crate::codec::nesting_limit()),
{
    let (value, _) = read_response(bytes);
    value
}

/// The value of one configured line.
pub open spec fn line_json(line: Seq<char>) -> JsonView {
    settled_text(line, crate::codec::parsed_text(line))
}

/// One value stands for itself; any other number of values is an array.
pub open spec fn joined(values: Seq<JsonView>) -> JsonView {
    if values.len() == 1 {
        values[0]
    } else {
        JsonView::Array(values)
    }
}

/// The value of the configured lines.
pub open spec fn lines_json(lines: Seq<Seq<char>>) -> JsonView {
    joined(Seq::new(lines.len(), |i: int| line_json(lines[i])))
}

/// The texts of a sequence of strings.
pub open spec fn texts(lines: Seq<String>) -> Seq<Seq<char>> {
    Seq::new(lines.len(), |i: int| lines[i]@)
}

/// One value as it is, or an array of any other number of values.
pub fn join_values(values: Vec<Json>) -> (r: Json)
    ensures
        r@ == joined(crate::json::models(values@)),
{
    proof {
        crate::json::lemma_models(values@);
    }
    let mut values = values;
    if values.len() == 1 {
        match values.pop() {
            Some(value) => value,
            None => Json::Null,
        }
    } else {
        Json::Array(values)
    }
}

/// Reads each configured line as JSON, a line that is not JSON as a JSON string. A single line is
/// used as it is; several become an array.
pub fn parse_json_lines(items: &[String]) -> (r: Json)
    ensures
        r@ == lines_json(texts(items@)),
        items@.len() != 1 ==> (r@ matches JsonView::Array(values) && values.len() == items@.len()),
        items@.len() == 1 ==> (crate::codec::parsed_text(items@[0]@) matches Ok(value) ==> r@
            == value),
{
    let mut values: Vec<Json> = Vec::new();
    let mut i: usize = 0;
    while i < items.len()
        invariant
            i <= items@.len(),
            values@.len() == i,
            forall|j: int| 0 <= j < i ==> (#[trigger] values@[j])@ == line_json(items@[j]@),
        decreases items@.len() - i,
    {
        let reading = read_text(items[i].as_str());
        values.push(settle_text(items[i].clone(), reading));
        i += 1;
    }
    proof {
        crate::json::lemma_models(values@);
        assert(crate::json::models(values@) =~= Seq::new(
            texts(items@).len(),
            |j: int| line_json(texts(items@)[j]),
        ));
    }
    join_values(values)
}

/// The value is a JSON object or array, as the service requires of its data.
pub open spec fn is_container(value: JsonView) -> bool {
    value is Object || value is Array
}

/// The object with the one member `value`.
pub open spec fn wrapped(value: JsonView) -> JsonView {
    JsonView::Object(Map::empty().insert("value"@, value))
}

/// The size of the text that normalization has still to read.
pub open spec fn unread(value: JsonView) -> nat {
    match value {
        JsonView::Text(text) => text.len() + 1,
        _ => 0,
    }
}

/// The data that stands for a value: an object or an array stands for itself; a string that holds
/// JSON stands for what it holds; anything else is wrapped. (What a text holds as a JSON string is
/// always shorter than the text.)
pub open spec fn normalized(value: JsonView) -> JsonView
    decreases unread(value),
{
    match value {
        JsonView::Object(_) => value,
        JsonView::Array(_) => value,
        JsonView::Text(text) => match crate::codec::parsed_text(crate::text::trimmed(text)) {
            Ok(inner) => if unread(inner) < unread(value) {
                normalized(inner)
            } else {
                wrapped(value)
            },
            Err(_) => wrapped(value),
        },
        _ => wrapped(value),
    }
}

/// The data that stands for a text, given what the text was read as.
pub open spec fn normalized_reading(
    text: Seq<char>,
    reading: Result<JsonView, Seq<char>>,
) -> JsonView {
    match reading {
        Ok(inner) => normalized(inner),
        Err(_) => wrapped(JsonView::Text(text)),
    }
}

/// The size of the text that is still to be read after a reading.
pub open spec fn unread_after(reading: Result<Json, String>) -> nat {
    match reading {
        Ok(value) => unread(value@),
        Err(_) => 0,
    }
}

/// Wraps a value as the member `value` of an object.
pub fn wrap_value(value: Json) -> (r: Json)
    ensures
        r@ == wrapped(value@),
        !is_container(value@) ==> crate::codec::nests_within(r@, crate::codec::nesting_limit()),
{
    proof {
        reveal_with_fuel(crate::codec::nests_within, 2);
    }
    let mut object = JsonObject::new();
    object.insert("value".to_owned(), value);
    Json::Object(object)
}

/// Trimming never makes a text longer.
pub proof fn lemma_trimmed_len(text: Seq<char>)
    ensures
        crate::text::trimmed(text).len() <= text.len(),
    decreases text.len(),
{
    if text.len() > 0 {
        if crate::text::is_white_space(text.first()) {
            lemma_trimmed_len(text.drop_first());
        } else if crate::text::is_white_space(text.last()) {
            lemma_trimmed_len(text.drop_last());
        }
    }
}

/// The data that stands for a text, given what the text was read as.
pub fn normalize_reading(text: String, reading: Result<Json, String>) -> (r: Json)
    ensures
        r@ == normalized_reading(text@, crate::codec::read_model(reading)),
        is_container(r@),
        (reading matches Ok(value) ==> crate::codec::nests_within(
            value@,
            crate::codec::nesting_limit(),
        )) ==> crate::codec::nests_within(r@, crate::codec::nesting_limit()),
    decreases unread_after(reading), 1nat,
{
    match reading {
        Ok(inner) => normalize_data_for_datacrypt(inner),
        Err(_) => wrap_value(Json::Text(text)),
    }
}

/// Makes a value into data that the service accepts: an object or an array.
pub fn normalize_data_for_datacrypt(value: Json) -> (r: Json)
    ensures
        r@ == normalized(value@),
        is_container(r@),
        value@ matches JsonView::Text(text) ==> crate::codec::parsed_text(
            crate::text::trimmed(text),
        ) matches Ok(inner) ==> r@ == normalized(inner),
        value@ matches JsonView::Text(text) ==> crate::codec::parsed_text(text) matches Ok(inner)
            ==> r@ == normalized(inner),
        crate::codec::nests_within(value@, crate::codec::nesting_limit())
            ==> crate::codec::nests_within(r@, crate::codec::nesting_limit()),
    decreases unread(value@), 0nat,
{
    match value {
        Json::Object(object) => Json::Object(object),
        Json::Array(items) => Json::Array(items),
        Json::Text(text) => {
            let reading = read_text(trim(text.as_str()));
            proof {
                lemma_trimmed_len(text@);
            }
            normalize_reading(text, reading)
        },
        other => wrap_value(other),
    }
}

/// A value is the error payload of the service: it has a member `error` that is a string.
pub open spec fn is_error_value(value: JsonView) -> bool {
    crate::json::member(value, "error"@) matches Some(error) && error is Text
}

/// A token is the error payload of the service, given what it was read as.
pub open spec fn is_error_reading(reading: Result<JsonView, Seq<char>>) -> bool {
    reading matches Ok(value) && is_error_value(value)
}

/// The data of a token, given what its trimmed text was read as.
pub open spec fn token_data(trimmed: Seq<char>, reading: Result<JsonView, Seq<char>>) -> JsonView {
    match reading {
        Ok(value) => normalized(value),
        Err(_) => normalized(JsonView::Text(trimmed)),
    }
}

/// Whether what a token was read as is the error payload of the service.
pub fn is_error_payload(reading: &Result<Json, String>) -> (r: bool)
    ensures
        r == is_error_reading(crate::codec::read_model(*reading)),
{
    match reading {
        Ok(value) => match value.get("error") {
            Some(error) => error.as_text().is_some(),
            None => false,
        },
        Err(_) => false,
    }
}

/// Whether the service answered with its standard payload `{"error":"..."}`.
pub fn is_datacrypt_error(token: &str) -> (r: bool)
    ensures
        r == is_error_reading(crate::codec::parsed_text(token@)),
{
    is_error_payload(&read_text(token))
}

/// The data of a token, given its trimmed text and what that was read as.
pub fn data_from_reading(trimmed: String, reading: Result<Json, String>) -> (r: Json)
    ensures
        r@ == token_data(trimmed@, crate::codec::read_model(reading)),
        is_container(r@),
        (reading matches Ok(value) ==> crate::codec::nests_within(
            value@,
            crate::codec::nesting_limit(),
        )) ==> crate::codec::nests_within(r@, crate::codec::nesting_limit()),
{
    match reading {
        Ok(value) => normalize_data_for_datacrypt(value),
        Err(_) => normalize_data_for_datacrypt(Json::Text(trimmed)),
    }
}

/// Makes a token of the service into the data of the operation that follows. A token that is JSON
/// gives the data of what it is read as: an object or an array is used as it is, and the error
/// payload of the service is described by its error.
pub fn datacrypt_data_from_token(token: &str) -> (r: Json)
    ensures
        r@ == token_data(
            crate::text::trimmed(token@),
            crate::codec::parsed_text(crate::text::trimmed(token@)),
        ),
        is_container(r@),
        crate::codec::parsed_text(token@) matches Ok(value) ==> r@ == normalized(value),
        crate::codec::parsed_text(token@) matches Ok(value) ==> (is_container(value) ==> r@
            == value),
        crate::codec::parsed_text(token@) matches Ok(value) ==> (is_error_value(value)
            ==> crate::describe::description(r@) == crate::describe::error_description(
            crate::describe::error_text(value)->0,
        )),
        crate::codec::nests_within(r@, crate::codec::nesting_limit()),
{
    let trimmed = trim(token);
    data_from_reading(trimmed.to_owned(), read_text(trimmed))
}

/// Why a token is not JSON.
pub open spec fn token_fault(token: Seq<char>) -> Option<Seq<char>> {
    match crate::codec::parsed_text(crate::text::trimmed(token)) {
        Ok(_) => None,
        Err(message) => Some(message),
    }
}

/// The message of the reader, if a token of the service is not JSON: its text is then used as it
/// stands.
pub fn find_token_fault(token: &str) -> (r: Option<String>)
    ensures
        crate::config::option_text(r) == token_fault(token@),
{
    match read_text(trim(token)) {
        Ok(_) => None,
        Err(message) => Some(message),
    }
}

} // verus!
