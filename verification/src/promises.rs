//! What each operation promises, in terms of its inputs and its results.

use vstd::prelude::*;

use crate::config::ConfigView;
use crate::json::JsonView;
use crate::mcp::McpErrorView;
use crate::policy::{HeaderEditView, KeptView, OutcomeView, PendingView, StepView, WorkView};
use crate::service::{CallView, CredentialsView, ServiceErrorView};

verus! {

// Texts.

/// The characters from `i` to `j` are a text without the white space around it.
pub open spec fn is_core(text: Seq<char>, i: int, j: int) -> bool {
    &&& 0 <= i <= j <= text.len()
    &&& forall|k: int| 0 <= k < i ==> crate::text::is_white_space(text[k])
    &&& forall|k: int| j <= k < text.len() ==> crate::text::is_white_space(text[k])
    &&& i < j ==> !crate::text::is_white_space(text[i]) && !crate::text::is_white_space(text[j - 1])
}

/// Trimming takes white space away at the two ends, all of it and nothing else.
pub proof fn trimming_leaves_the_core(text: Seq<char>) -> (ends: (int, int))
    ensures
        is_core(text, ends.0, ends.1),
        crate::text::trimmed(text) == text.subrange(ends.0, ends.1),
    decreases text.len(),
{
    if text.len() == 0 {
        assert(text.subrange(0, 0) =~= text);
        (0, 0)
    } else if crate::text::is_white_space(text.first()) {
        let rest = text.drop_first();
        let (i, j) = trimming_leaves_the_core(rest);
        assert(rest.subrange(i, j) =~= text.subrange(i + 1, j + 1));
        assert forall|k: int| j + 1 <= k < text.len() implies crate::text::is_white_space(
            text[k],
        ) by {
            assert(text[k] == rest[k - 1]);
        }
        assert forall|k: int| 0 <= k < i + 1 implies crate::text::is_white_space(text[k]) by {
            if k > 0 {
                assert(text[k] == rest[k - 1]);
            }
        }
        (i + 1, j + 1)
    } else if crate::text::is_white_space(text.last()) {
        let rest = text.drop_last();
        let (i, j) = trimming_leaves_the_core(rest);
        assert(rest.subrange(i, j) =~= text.subrange(i, j));
        assert forall|k: int| j <= k < text.len() implies crate::text::is_white_space(text[k]) by {
            if k < rest.len() {
                assert(text[k] == rest[k]);
            }
        }
        (i, j)
    } else {
        assert(text.subrange(0, text.len() as int) =~= text);
        (0, text.len() as int)
    }
}

/// Six of the ASCII characters are white space, and of the others the line and space characters.
pub proof fn characters_of_white_space(c: char)
    ensures
        c < '\u{80}' ==> crate::text::is_white_space(c) == (c == ' ' || c == '\t' || c == '\n' || c
            == '\u{b}' || c == '\u{c}' || c == '\r'),
        c >= '\u{80}' ==> crate::text::is_white_space(c) == (c == '\u{85}' || c == '\u{a0}' || c
            == '\u{1680}' || ('\u{2000}' <= c && c <= '\u{200a}') || c == '\u{2028}' || c
            == '\u{2029}' || c == '\u{202f}' || c == '\u{205f}' || c == '\u{3000}'),
{
}

/// The number that decimal digits stand for.
pub open spec fn numeral_value(text: Seq<char>) -> int
    decreases text.len(),
{
    if text.len() == 0 {
        0
    } else {
        10 * numeral_value(text.drop_last()) + (text.last() as int - '0' as int)
    }
}

/// The numeral of a number consists of digits, stands for the number, and has no zero in front.
pub proof fn numeral_stands_for_its_number(n: nat)
    ensures
        crate::text::decimal(n).len() > 0,
        forall|k: int|
            0 <= k < crate::text::decimal(n).len() ==> '0' <= #[trigger] crate::text::decimal(n)[k]
                <= '9',
        numeral_value(crate::text::decimal(n)) == n,
        n > 0 ==> crate::text::decimal(n)[0] != '0',
        n == 0 ==> crate::text::decimal(n) == seq!['0'],
    decreases n,
{
    let text = crate::text::decimal(n);
    if n >= 10 {
        numeral_stands_for_its_number(n / 10);
        assert(text.drop_last() =~= crate::text::decimal(n / 10));
    } else {
        assert(text.drop_last() =~= Seq::<char>::empty());
        assert(numeral_value(Seq::<char>::empty()) == 0);
        assert(text.last() as int == '0' as int + n);
    }
}

/// Texts are ordered by the first character in which they differ.
pub proof fn first_difference_orders(p: Seq<char>, c: char, x: Seq<char>, d: char, y: Seq<char>)
    requires
        c != d,
    ensures
        crate::text::text_before(p + seq![c] + x, p + seq![d] + y) == (c < d),
    decreases p.len(),
{
    let a = p + seq![c] + x;
    let b = p + seq![d] + y;
    if p.len() > 0 {
        let q = p.drop_first();
        assert(a.drop_first() =~= q + seq![c] + x);
        assert(b.drop_first() =~= q + seq![d] + y);
        assert(a.first() == p[0] && b.first() == p[0]);
        first_difference_orders(q, c, x, d, y);
    } else {
        assert(a.first() == c && b.first() == d);
    }
}

/// A text comes before every longer text that starts with it.
pub proof fn prefix_comes_first(p: Seq<char>, x: Seq<char>)
    requires
        x.len() > 0,
    ensures
        crate::text::text_before(p, p + x),
        !crate::text::text_before(p + x, p),
    decreases p.len(),
{
    if p.len() > 0 {
        let q = p.drop_first();
        assert((p + x).drop_first() =~= q + x);
        assert((p + x).first() == p.first());
        prefix_comes_first(q, x);
    }
}

// JSON values.

/// The members of an object are found by their keys, and nothing else has members.
pub proof fn only_objects_have_members(value: JsonView, key: Seq<char>)
    ensures
        value matches JsonView::Object(map) ==> (map.contains_key(key) ==> crate::json::member(
            value,
            key,
        ) == Some(map[key])),
        value matches JsonView::Object(map) ==> (!map.contains_key(key) ==> crate::json::member(
            value,
            key,
        ) is None),
        !(value is Object) ==> crate::json::member(value, key) is None,
{
}

/// The pointer step `0` leads to the first item of an array or to the member `0` of an object.
pub proof fn pointer_step_zero(first: JsonView, rest: Seq<JsonView>, value: JsonView)
    ensures
        crate::json::child_zero(JsonView::Array(seq![first] + rest)) == Some(first),
        crate::json::child_zero(JsonView::Array(Seq::empty())) is None,
        value matches JsonView::Object(map) ==> (map.contains_key("0"@)
            ==> crate::json::child_zero(value) == Some(map["0"@])),
        value matches JsonView::Object(map) ==> (!map.contains_key("0"@)
            ==> crate::json::child_zero(value) is None),
        !(value is Array) && !(value is Object) ==> crate::json::child_zero(value) is None,
{
}

/// Only a JSON string has a text, and it is the string.
pub proof fn only_strings_have_a_text(value: JsonView, text: Seq<char>)
    ensures
        (crate::json::text_of(value) == Some(text)) == (value == JsonView::Text(text)),
        crate::json::text_of(value) is None == !(value is Text),
{
}

// Configured lines.

/// One configured line that is JSON is used as it is, an array or any other value; one that is not
/// JSON is a string.
pub proof fn single_line_is_used_as_it_is(line: Seq<char>, value: JsonView)
    ensures
        crate::codec::is_text_of(line, value) ==> crate::payload::lines_json(seq![line]) == value,
        crate::codec::parsed_text(line) is Err ==> crate::payload::lines_json(seq![line])
            == JsonView::Text(line),
{
}

/// Any other number of lines is an array of as many items, each the value of its line.
pub proof fn several_lines_are_an_array(lines: Seq<Seq<char>>, i: int, value: JsonView)
    requires
        lines.len() != 1,
    ensures
        crate::payload::lines_json(lines) is Array,
        crate::payload::lines_json(lines)->Array_0.len() == lines.len(),
        0 <= i < lines.len() && crate::codec::is_text_of(lines[i], value)
            ==> crate::payload::lines_json(
            lines,
        )->Array_0[i] == value,
        0 <= i < lines.len() && crate::codec::parsed_text(lines[i]) is Err
            ==> crate::payload::lines_json(
            lines,
        )->Array_0[i] == JsonView::Text(lines[i]),
{
}

/// Values are joined in the same way: one stands for itself, others are the items of an array.
pub proof fn joined_values(value: JsonView, values: Seq<JsonView>)
    ensures
        crate::payload::joined(seq![value]) == value,
        values.len() != 1 ==> crate::payload::joined(values) == JsonView::Array(values),
{
}

/// Lines that are not configured, or of which there are none, give no value; others give theirs.
pub proof fn configured_lines_count_where_there_are_any(lines: Seq<Seq<char>>, line: Seq<char>)
    ensures
        crate::config::configured_json(None) is None,
        crate::config::configured_json(Some(Seq::empty())) is None,
        lines.len() > 1 ==> (crate::config::configured_json(Some(lines)) matches Some(value)
            && value is Array && value->Array_0.len() == lines.len() && value
            == crate::payload::lines_json(lines)),
        forall|value: JsonView| #[trigger]
            crate::codec::is_text_of(line, value)
                ==> crate::config::configured_json(Some(seq![line])) == Some(
                value,
            ),
        crate::codec::parsed_text(line) is Err
            ==> crate::config::configured_json(Some(seq![line])) == Some(
            JsonView::Text(line),
        ),
{
    assert forall|value: JsonView| #[trigger]
        crate::codec::is_text_of(line, value) implies crate::config::configured_json(Some(
            seq![line])) == Some(
        value,
    ) by {
        single_line_is_used_as_it_is(line, value);
    }
    single_line_is_used_as_it_is(line, JsonView::Null);
}

// Bodies.

/// A body starts as a gzip stream exactly when its first two bytes are 1f and 8b.
pub proof fn gzip_magic_is_two_bytes(bytes: Seq<u8>)
    ensures
        crate::payload::has_gzip_magic(bytes) == seq![0x1fu8, 0x8bu8].is_prefix_of(bytes),
{
    let magic = seq![0x1fu8, 0x8bu8];
    if magic.is_prefix_of(bytes) {
        assert(magic =~= bytes.subrange(0, 2));
        assert(magic[0] == bytes[0] && magic[1] == bytes[1]);
    }
    if crate::payload::has_gzip_magic(bytes) {
        assert(magic =~= bytes.subrange(0, 2));
    }
}

/// The content of a body is what decompressing it gives, where it starts as a gzip stream does.
pub proof fn content_is_what_decompressing_gives(bytes: Seq<u8>)
    ensures
        seq![0x1fu8, 0x8bu8].is_prefix_of(bytes) ==> crate::payload::gzip_content(bytes)
            == crate::codec::gunzipped(bytes),
        !seq![0x1fu8, 0x8bu8].is_prefix_of(bytes) ==> crate::payload::gzip_content(bytes) is None,
{
    gzip_magic_is_two_bytes(bytes);
}

/// Content is read as its bytes, or else as its trimmed text, or not at all.
pub proof fn content_is_read_in_order(bytes: Seq<u8>, value: JsonView)
    ensures
        crate::codec::parsed_bytes(bytes) == Some(value) ==> crate::payload::content_reading(bytes)
            == Some(value),
        crate::codec::parsed_bytes(bytes) is None && crate::codec::is_text_of(
            crate::text::trimmed(crate::codec::lossy_text(bytes)),
            value,
        ) ==> crate::payload::content_reading(bytes) == Some(value),
        crate::codec::parsed_bytes(bytes) is None && crate::codec::parsed_text(
            crate::text::trimmed(crate::codec::lossy_text(bytes)),
        ) is Err ==> crate::payload::content_reading(bytes) is None,
{
}

/// Bytes are JSON when they are UTF-8 and their text is JSON.
pub proof fn bytes_are_read_as_their_text(bytes: Seq<u8>, value: JsonView)
    ensures
        (crate::codec::parsed_bytes(bytes) == Some(value)) == (vstd::utf8::valid_utf8(bytes)
            && crate::codec::is_text_of(
            vstd::utf8::decode_utf8(bytes),
            value,
        )),
{
}

/// An empty body is an empty object.
pub proof fn empty_body_is_an_empty_object(payload: Seq<u8>)
    requires
        payload.len() == 0,
    ensures
        crate::payload::response_json(payload) == JsonView::Object(Map::empty()),
        crate::policy::upstream_json(payload) == JsonView::Object(Map::empty()),
{
}

/// A body that is JSON as it stands is read as that JSON, whatever else it may be.
pub proof fn json_body_is_read_first(bytes: Seq<u8>, value: JsonView)
    requires
        bytes.len() > 0,
        crate::codec::parsed_bytes(bytes) == Some(value),
    ensures
        crate::payload::response_json(bytes) == value,
{
}

/// A gzip stream is read as its content: as its bytes, or else as its trimmed text.
pub proof fn gzip_body_is_read_as_its_content(bytes: Seq<u8>, content: Seq<u8>, value: JsonView)
    requires
        seq![0x1fu8, 0x8bu8].is_prefix_of(bytes),
        crate::codec::gunzipped(bytes) == Some(content),
    ensures
        crate::codec::parsed_bytes(content) == Some(value)
            ==> crate::payload::response_json(bytes) == value,
        crate::codec::parsed_bytes(content) is None
            && crate::codec::is_text_of(crate::text::trimmed(crate::codec::lossy_text(
                content)), value)
            ==> crate::payload::response_json(bytes) == value,
{
    gzip_magic_is_two_bytes(bytes);
    crate::laws::gzip_stream_is_not_utf8(bytes);
}

/// The bytes do not decompress to JSON.
pub open spec fn decompresses_to_no_json(bytes: Seq<u8>) -> bool {
    seq![0x1fu8, 0x8bu8].is_prefix_of(bytes) ==> (crate::codec::gunzipped(bytes) matches Some(
        content,
    ) ==> crate::codec::parsed_bytes(content) is None
        && crate::codec::parsed_text(crate::text::trimmed(crate::codec::lossy_text(
            content))) is Err)
}

/// A body that is not JSON, and does not decompress to JSON, is read as its trimmed text; where
/// that is not JSON, it is the whole text, untrimmed, as a string.
pub proof fn other_body_is_read_as_text(bytes: Seq<u8>, value: JsonView)
    requires
        bytes.len() > 0,
        crate::codec::parsed_bytes(bytes) is None,
        decompresses_to_no_json(bytes),
    ensures
        crate::codec::is_text_of(crate::text::trimmed(crate::codec::lossy_text(
            bytes)), value) ==> crate::payload::response_json(bytes)
            == value,
        crate::codec::parsed_text(crate::text::trimmed(crate::codec::lossy_text(
            bytes))) is Err ==> crate::payload::response_json(bytes)
            == JsonView::Text(crate::codec::lossy_text(bytes)),
{
    gzip_magic_is_two_bytes(bytes);
}

/// Readings of a body are taken in order: of its bytes, of its content, of its text.
pub proof fn readings_are_taken_in_order(
    direct: JsonView,
    unzipped: Option<JsonView>,
    raw: Seq<char>,
    value: JsonView,
)
    ensures
        crate::payload::settled_reading(Some(direct), unzipped, raw) == direct,
        crate::payload::settled_reading(None, Some(value), raw) == value,
        crate::codec::is_text_of(crate::text::trimmed(raw), value)
            ==> crate::payload::settled_reading(None, None, raw)
            == value,
        crate::codec::parsed_text(crate::text::trimmed(raw)) is Err
            ==> crate::payload::settled_reading(None, None, raw)
            == JsonView::Text(raw),
        crate::payload::settled_text(raw, Ok(value)) == value,
        forall|message: Seq<char>| #[trigger]
            crate::payload::settled_text(raw, Err(message)) == JsonView::Text(raw),
{
}

/// A report says of a body whether it was decompressed, how large its content is, and whether it
/// is no JSON in any way.
pub proof fn reports_are_true(report: crate::payload::BodyReport, bytes: Seq<u8>)
    requires
        crate::payload::reports_body(report, bytes),
    ensures
        report.decompression is NotTried == !seq![0x1fu8, 0x8bu8].is_prefix_of(bytes),
        seq![0x1fu8, 0x8bu8].is_prefix_of(bytes) ==> (crate::codec::gunzipped(bytes) matches Some(
            content,
        ) ==> (report.decompression matches crate::payload::Decompression::Content(size) && size
            == content.len())),
        seq![0x1fu8, 0x8bu8].is_prefix_of(bytes) && crate::codec::gunzipped(bytes) is None
            ==> report.decompression is Failed,
        report.unreadable == (bytes.len() > 0 && crate::codec::parsed_bytes(bytes) is None
            && decompresses_to_no_json(bytes)
                && crate::codec::parsed_text(crate::text::trimmed(crate::codec::lossy_text(
                    bytes))) is Err),
{
    gzip_magic_is_two_bytes(bytes);
}

// Data.

/// The object with one member, under the key `value`.
pub open spec fn is_wrapping(outer: JsonView, inner: JsonView) -> bool {
    outer matches JsonView::Object(map) && map.contains_key("value"@) && map["value"@] == inner && (
    forall|key: Seq<char>| #[trigger] map.contains_key(key) ==> key == "value"@)
}

/// Objects and arrays, and nothing else, can be sent as they are.
pub proof fn containers_are_objects_and_arrays(value: JsonView)
    ensures
        crate::payload::is_container(value) == (value is Object || value is Array),
{
}

/// An object or an array is its own data.
pub proof fn containers_are_their_own_data(
    items: Seq<JsonView>,
    map: Map<Seq<char>, JsonView>,
)
    ensures
        crate::payload::normalized(JsonView::Array(items)) == JsonView::Array(items),
        crate::payload::normalized(JsonView::Object(map)) == JsonView::Object(map),
{
}

/// A value that is neither a container nor a string is wrapped.
pub proof fn scalars_are_wrapped_as_they_are(value: JsonView)
    requires
        value is Null || value is Bool || value is Number,
    ensures
        is_wrapping(crate::payload::normalized(value), value),
        is_wrapping(crate::payload::wrapped(value), value),
{
}

/// A string that holds JSON stands for what it holds; any other string is wrapped, untrimmed.
pub proof fn strings_stand_for_what_they_hold(text: Seq<char>, inner: JsonView)
    ensures
        crate::codec::is_text_of(crate::text::trimmed(text), inner) && !(inner is Text)
            ==> crate::payload::normalized(
            JsonView::Text(text),
        ) == crate::payload::normalized(inner),
        crate::codec::is_text_of(crate::text::trimmed(text), inner) && (inner
            matches JsonView::Text(s) ==> s.len()
            < text.len()) ==> crate::payload::normalized(JsonView::Text(text))
            == crate::payload::normalized(inner),
        crate::codec::parsed_text(crate::text::trimmed(text)) is Err ==> is_wrapping(
            crate::payload::normalized(JsonView::Text(text)),
            JsonView::Text(text),
        ),
        crate::payload::normalized_reading(text, Ok(inner)) == crate::payload::normalized(inner),
        forall|message: Seq<char>|
            is_wrapping(
                #[trigger] crate::payload::normalized_reading(text, Err(message)),
                JsonView::Text(text),
            ),
{
    assert(is_wrapping(crate::payload::wrapped(JsonView::Text(text)), JsonView::Text(text)));
}

/// Values with the same data stand for each other: a value and the string that holds it.
pub proof fn quoting_does_not_change_the_data(text: Seq<char>, value: JsonView)
    requires
        crate::codec::is_text_of(crate::text::trimmed(text), value),
        !(value is Text),
    ensures
        crate::payload::normalized(JsonView::Text(text)) == crate::payload::normalized(value),
        value is Array || value is Object ==> crate::payload::normalized(JsonView::Text(text))
            == value,
        !(value is Array) && !(value is Object) ==> is_wrapping(
            crate::payload::normalized(JsonView::Text(text)),
            value,
        ),
{
    if value is Null || value is Bool || value is Number {
        scalars_are_wrapped_as_they_are(value);
    }
}

/// The data of a token is what its trimmed text holds as JSON, or else its trimmed text, wrapped.
pub proof fn token_gives_its_data(token: Seq<char>, value: JsonView)
    ensures
        ({
            let data = crate::payload::token_data(crate::text::trimmed(
                token), crate::codec::parsed_text(crate::text::trimmed(token)));
            &&& crate::codec::is_text_of(crate::text::trimmed(token), value)
                && (value is Array || value is Object) ==> data
                == value
            &&& crate::codec::is_text_of(crate::text::trimmed(token), value)
                && (value is Null || value is Bool
                || value is Number) ==> is_wrapping(data, value)
            &&& crate::codec::is_text_of(crate::text::trimmed(token), value) ==> data
                == crate::payload::normalized(value)
            &&& crate::codec::parsed_text(crate::text::trimmed(token)) is Err ==> is_wrapping(
                data,
                JsonView::Text(crate::text::trimmed(token)),
            )
        }),
        crate::payload::token_data(token, Ok(value)) == crate::payload::normalized(value),
        forall|message: Seq<char>| #[trigger]
            crate::payload::token_data(token, Err(message)) == crate::payload::normalized(
                JsonView::Text(token),
            ),
{
    if value is Null || value is Bool || value is Number {
        scalars_are_wrapped_as_they_are(value);
    }
    crate::laws::trimming_twice_is_trimming_once(token);
    strings_stand_for_what_they_hold(crate::text::trimmed(token), value);
}

/// A token has a fault exactly when its trimmed text is not JSON; the fault is what the reader says.
pub proof fn token_faults_are_those_of_the_reader(token: Seq<char>, message: Seq<char>)
    ensures
        (crate::payload::token_fault(token) == Some(message))
            == (crate::codec::parsed_text(crate::text::trimmed(token))
            == Err::<JsonView, Seq<char>>(message)),
        crate::payload::token_fault(token) is None
            == crate::codec::parsed_text(crate::text::trimmed(token)) is Ok,
{
}

/// A token is an error of the service exactly when it is an object with a string under `error`,
/// whatever the string says and whatever other members there are.
pub proof fn errors_have_a_string_under_error(token: Seq<char>, value: JsonView)
    requires
        crate::codec::is_text_of(token, value),
    ensures
        crate::payload::is_error_reading(crate::codec::parsed_text(token)) == (value
            matches JsonView::Object(map)
            && map.contains_key("error"@) && map["error"@] is Text),
{
}

/// A token that is not JSON is no error of the service.
pub proof fn unreadable_token_is_no_error(token: Seq<char>)
    requires
        crate::codec::parsed_text(token) is Err,
    ensures
        !crate::payload::is_error_reading(crate::codec::parsed_text(token)),
{
}

// MCP envelopes.

/// The path `content`, `0`, `text` leads through the envelope to a string.
pub open spec fn leads_to_text(
    envelope: JsonView,
    content: JsonView,
    item: JsonView,
    text: Seq<char>,
) -> bool {
    &&& envelope matches JsonView::Object(root) && root.contains_key("content"@)
        && root["content"@] == content
    &&& match content {
        JsonView::Array(items) => items.len() > 0 && items[0] == item,
        JsonView::Object(map) => map.contains_key("0"@) && map["0"@] == item,
        _ => false,
    }
    &&& item matches JsonView::Object(map) && map.contains_key("text"@) && map["text"@]
        == JsonView::Text(text)
}

/// The text of an envelope is the string at the end of the path.
pub proof fn text_is_found_on_its_path(
    envelope: JsonView,
    content: JsonView,
    item: JsonView,
    text: Seq<char>,
)
    requires
        leads_to_text(envelope, content, item, text),
    ensures
        crate::mcp::content_item(envelope) == Some(item),
        crate::mcp::content_text(envelope) == Some(text),
        crate::mcp::has_content_object(envelope),
{
}

/// Where an envelope has a text, the path leads to it.
pub proof fn text_has_a_path(envelope: JsonView, text: Seq<char>)
    requires
        crate::mcp::content_text(envelope) == Some(text),
    ensures
        exists|content: JsonView, item: JsonView| leads_to_text(envelope, content, item, text),
{
    let content = envelope->Object_0["content"@];
    let item = crate::mcp::content_item(envelope)->0;
    assert(leads_to_text(envelope, content, item, text));
}

/// The data of an envelope is the data of what its text holds as JSON.
pub proof fn envelope_gives_the_data_of_its_text(
    envelope: JsonView,
    content: JsonView,
    item: JsonView,
    text: Seq<char>,
    value: JsonView,
    message: Seq<char>,
)
    requires
        leads_to_text(envelope, content, item, text),
    ensures
        crate::codec::is_text_of(crate::text::trimmed(text), value)
            ==> (crate::mcp::extracted(envelope) matches Ok(data)
            && data == crate::payload::normalized(value)),
        crate::codec::is_text_of(crate::text::trimmed(text), value)
            && (value is Array || value is Object) ==> (
        crate::mcp::extracted(envelope) matches Ok(data) && data == value),
        crate::codec::parsed_text(crate::text::trimmed(text))
            == Err::<JsonView, Seq<char>>(message) ==> (
        crate::mcp::extracted(envelope) matches Err(error) && error == McpErrorView::InvalidJson(
            message,
        )),
{
}

/// An envelope through which the path does not lead to a string has no data.
pub proof fn envelope_without_a_text_has_no_data(envelope: JsonView)
    requires
        forall|content: JsonView, item: JsonView, text: Seq<char>|
            !leads_to_text(envelope, content, item, text),
    ensures
        crate::mcp::extracted(envelope) matches Err(error) && error == McpErrorView::MissingText,
{
    if let Some(text) = crate::mcp::content_text(envelope) {
        text_has_a_path(envelope, text);
        let (content, item) = choose|content: JsonView, item: JsonView|
            leads_to_text(envelope, content, item, text);
        assert(!leads_to_text(envelope, content, item, text));
    }
}

/// What the reading of a text gives as data, or the message of the reader.
pub proof fn extraction_follows_the_reading(value: JsonView, message: Seq<char>)
    ensures
        crate::mcp::extracted_reading(Ok(value)) matches Ok(data) && data
            == crate::payload::normalized(value),
        crate::mcp::extracted_reading(Err(message)) matches Err(error) && error
            == McpErrorView::InvalidJson(message),
{
}

/// An envelope can take a text exactly when `content[0]` is an object, with or without a text.
pub proof fn envelope_takes_a_text_where_it_has_an_item(envelope: JsonView, content: JsonView)
    requires
        envelope matches JsonView::Object(root) && root.contains_key("content"@)
            && root["content"@] == content,
    ensures
        crate::mcp::has_content_object(envelope) == match content {
            JsonView::Array(items) => items.len() > 0 && items[0] is Object,
            JsonView::Object(map) => map.contains_key("0"@) && map["0"@] is Object,
            _ => false,
        },
{
}

/// An envelope without `content` takes no text.
pub proof fn envelope_without_content_takes_no_text(envelope: JsonView)
    requires
        envelope matches JsonView::Object(root) ==> !root.contains_key("content"@),
    ensures
        !crate::mcp::has_content_object(envelope),
        crate::mcp::extracted(envelope) matches Err(error) && error == McpErrorView::MissingText,
{
}

/// An envelope with a text in it is the envelope before, but for that text.
pub open spec fn differs_in_text_only(before: JsonView, after: JsonView, text: Seq<char>) -> bool {
    &&& after is Object
    &&& after->Object_0.dom() == before->Object_0.dom()
    &&& forall|key: Seq<char>|
        key != "content"@ && #[trigger] before->Object_0.contains_key(key) ==> after->Object_0[key]
            == before->Object_0[key]
    &&& match before->Object_0["content"@] {
        JsonView::Array(items) => {
            let now = after->Object_0["content"@];
            &&& now is Array
            &&& now->Array_0.len() == items.len()
            &&& forall|i: int| 0 < i < items.len() ==> #[trigger] now->Array_0[i] == items[i]
            &&& differs_in_member(items[0], now->Array_0[0], text)
        },
        JsonView::Object(map) => {
            let now = after->Object_0["content"@];
            &&& now is Object
            &&& now->Object_0.dom() == map.dom()
            &&& forall|key: Seq<char>|
                key != "0"@ && #[trigger] map.contains_key(key) ==> now->Object_0[key] == map[key]
            &&& differs_in_member(map["0"@], now->Object_0["0"@], text)
        },
        _ => false,
    }
}

/// An object with a string under `text` is the object before, but for that member.
pub open spec fn differs_in_member(before: JsonView, after: JsonView, text: Seq<char>) -> bool {
    &&& after is Object
    &&& after->Object_0.dom() == before->Object_0.dom().insert("text"@)
    &&& after->Object_0["text"@] == JsonView::Text(text)
    &&& forall|key: Seq<char>|
        key != "text"@ && #[trigger] before->Object_0.contains_key(key) ==> after->Object_0[key]
            == before->Object_0[key]
}

/// Writing a token changes the text of an envelope and nothing else.
pub proof fn token_changes_the_text_only(envelope: JsonView, token: Seq<char>)
    requires
        crate::mcp::has_content_object(envelope),
    ensures
        differs_in_text_only(envelope, crate::mcp::with_content_text(envelope, token), token),
{
    let root = envelope->Object_0;
    let after = crate::mcp::with_content_text(envelope, token);
    let item = crate::mcp::content_item(envelope)->0;
    let changed = crate::mcp::with_text(item, token);
    assert(root.contains_key("content"@));
    assert(after->Object_0.dom() =~= root.dom());
    assert(changed->Object_0.dom() =~= item->Object_0.dom().insert("text"@));
    assert(differs_in_member(item, changed, token));
    match root["content"@] {
        JsonView::Array(items) => {
            assert(after->Object_0["content"@] == JsonView::Array(items.update(0, changed)));
        },
        JsonView::Object(map) => {
            assert(map.contains_key("0"@));
            assert(after->Object_0["content"@] == JsonView::Object(map.insert("0"@, changed)));
            assert(map.insert("0"@, changed).dom() =~= map.dom());
        },
        _ => {},
    }
}

/// The finished envelope is written whole, in the text that the writer gives it; an envelope that
/// takes no text is refused.
pub proof fn finished_envelope_is_written(envelope: JsonView, token: Seq<char>)
    ensures
        crate::mcp::has_content_object(envelope) ==> (crate::mcp::finalized(envelope, token)
            matches Ok(body) && body == crate::codec::written_text(
            crate::mcp::with_content_text(envelope, token),
        )),
        !crate::mcp::has_content_object(envelope) ==> (crate::mcp::finalized(envelope, token)
            matches Err(error) && error == McpErrorView::MissingItem),
{
}

/// What the writer gives is served as it is; what it reports is reported.
pub proof fn serialization_follows_the_writer(text: Seq<char>)
    ensures
        crate::mcp::serialized(Ok(text)) matches Ok(body) && body == text,
        crate::mcp::serialized(Err(text)) matches Err(error) && error == McpErrorView::NotWritten(
            text,
        ),
        crate::policy::envelope_outcome(Ok(text)) == OutcomeView::Replace(text),
        forall|error: McpErrorView| #[trigger]
            crate::policy::envelope_outcome(Err(error)) == OutcomeView::Keep(
                KeptView::NotFinalized(error),
            ),
{
}

/// Each error of an envelope has its sentence.
pub proof fn sentences_of_envelope_errors(message: Seq<char>)
    ensures
        crate::mcp::error_sentence(McpErrorView::MissingText)
            == "MCP response missing content[0].text string"@,
        crate::mcp::error_sentence(McpErrorView::MissingItem)
            == "MCP response missing content[0] object"@,
        crate::mcp::error_sentence(McpErrorView::InvalidJson(message))
            == "MCP content[0].text is not valid JSON: "@ + message,
        crate::mcp::error_sentence(McpErrorView::NotWritten(message))
            == "Failed to serialize MCP envelope: "@ + message,
{
}

// Replies of the service.

/// A reply of status 200 that was read gives its token, whatever the token holds: an error of the
/// service too.
pub proof fn successful_reply_gives_its_token(body: Seq<u8>, token: Seq<char>)
    ensures
        crate::service::reply_outcome(200, body, Ok(token)) matches Ok(given) && given == token,
{
}

/// A reply gives a token only where its status is 200 and its body was read; otherwise the error
/// says which it was.
pub proof fn other_replies_give_no_token(
    status: u32,
    body: Seq<u8>,
    parsed: Result<Seq<char>, Seq<char>>,
    report: Seq<char>,
)
    ensures
        crate::service::reply_outcome(status, body, parsed) is Ok == (status == 200
            && parsed is Ok),
        status != 200 ==> (crate::service::reply_outcome(status, body, parsed) matches Err(error)
            && error == ServiceErrorView::Status(status, crate::codec::lossy_text(body))),
        crate::service::reply_outcome(200, body, Err(report)) matches Err(error) && error
            == ServiceErrorView::BadBody(report),
{
}

/// The body of a successful reply, and the reading of any other, do not matter.
pub proof fn replies_depend_on_what_counts(
    status: u32,
    body: Seq<u8>,
    other: Seq<u8>,
    a: Result<Seq<char>, Seq<char>>,
    b: Result<Seq<char>, Seq<char>>,
)
    ensures
        crate::service::reply_outcome(200, body, a) == crate::service::reply_outcome(200, other, a),
        status != 200 ==> crate::service::reply_outcome(status, body, a)
            == crate::service::reply_outcome(status, body, b),
{
}

/// Each error of the service has its sentence.
pub proof fn sentences_of_service_errors(status: u32, text: Seq<char>)
    ensures
        crate::service::service_sentence(ServiceErrorView::NotSent(text))
            == "DataCrypt request failed: "@ + text,
        crate::service::service_sentence(ServiceErrorView::BadBody(text)) == text,
        crate::service::service_sentence(ServiceErrorView::Status(status, text))
            == "DataCrypt service returned status "@ + crate::text::decimal(status as nat) + ": "@
            + text,
{
}

/// The sentence for a configuration quotes it and its cause.
pub proof fn sentence_of_a_configuration(text: Seq<char>, cause: Seq<char>)
    ensures
        crate::config::configuration_sentence(text, cause) == "Failed to parse configuration '"@
            + text + "'. Cause: "@ + cause,
{
}

/// A call with a key has two headers, one without has one.
pub proof fn calls_have_their_headers(key: Seq<char>)
    ensures
        crate::service::call_headers(None) == seq![("Content-Type"@, "application/json"@)],
        crate::service::call_headers(Some(key)) == seq![
            ("Content-Type"@, "application/json"@),
            ("x-api-key"@, key),
        ],
{
    assert(crate::service::call_headers(Some(key)) =~= seq![
        ("Content-Type"@, "application/json"@),
        ("x-api-key"@, key),
    ]);
}

/// What an expression gave is used as it is; what it did not give is empty.
pub proof fn missing_texts_are_empty(text: Seq<char>)
    ensures
        crate::service::text_or_empty(Some(text)) == text,
        crate::service::text_or_empty(None).len() == 0,
        crate::service::no_credentials().token.len() == 0,
        crate::service::no_credentials().passphrase.len() == 0,
{
}

/// The credentials of a request are what its two expressions gave, each in its place; a response
/// uses those of its request, and none where the request did not go on.
pub proof fn credentials_stay_in_their_places(
    token: Seq<char>,
    passphrase: Seq<char>,
    credentials: CredentialsView,
)
    ensures
        crate::service::evaluated_credentials(Some(token), Some(passphrase)).token == token,
        crate::service::evaluated_credentials(Some(token), Some(passphrase)).passphrase
            == passphrase,
        crate::service::evaluated_credentials(Some(token), None).token == token,
        crate::service::evaluated_credentials(Some(token), None).passphrase.len() == 0,
        crate::service::evaluated_credentials(None, Some(passphrase)).token.len() == 0,
        crate::service::evaluated_credentials(None, Some(passphrase)).passphrase == passphrase,
        crate::service::evaluated_credentials(None, None).token.len() == 0,
        crate::service::evaluated_credentials(None, None).passphrase.len() == 0,
        crate::service::response_credentials(Some(credentials)) == credentials,
        crate::service::response_credentials(None).token.len() == 0,
        crate::service::response_credentials(None).passphrase.len() == 0,
{
}

// Which responses are protected.

/// A response is protected exactly when one of the comma-separated entries is its status; the
/// headers are changed then, and only then.
pub proof fn eligible_responses_are_admitted(
    before: Seq<char>,
    entry: Seq<char>,
    after: Seq<char>,
    status: nat,
)
    requires
        crate::text::trimmed(entry) == crate::text::decimal(status),
        forall|k: int| 0 <= k < entry.len() ==> entry[k] != ',',
    ensures
        crate::policy::admitted(entry, status) is Some,
        crate::policy::admitted(before + seq![','] + entry, status) is Some,
        crate::policy::admitted(entry + seq![','] + after, status) is Some,
        forall|list: Seq<char>, code: nat| #[trigger]
            crate::policy::admitted(list, code) is Some == crate::policy::lists_status(list, code),
        forall|list: Seq<char>, code: nat|
            (#[trigger] crate::policy::admitted(list, code)) matches Some(edits) ==> edits
                == crate::policy::protected_headers(),
{
    single_entry_names_its_numeral(entry, status);
    crate::laws::joined_lists_name_what_either_names(before, entry, status);
    crate::laws::joined_lists_name_what_either_names(entry, after, status);
}

/// A list without a comma names a status exactly when it is the numeral of that status, with or
/// without white space around it.
pub proof fn single_entry_names_its_numeral(list: Seq<char>, status: nat)
    requires
        forall|k: int| 0 <= k < list.len() ==> list[k] != ',',
    ensures
        crate::policy::lists_status(list, status) == (crate::text::trimmed(list)
            == crate::text::decimal(
            status,
        )),
{
    assert(list.subrange(0, list.len() as int) =~= list);
    assert(crate::policy::is_piece(list, 0, list.len() as int));
    if crate::policy::lists_status(list, status) {
        let (i, j) = choose|i: int, j: int| #[trigger]
            crate::policy::is_piece(list, i, j) && crate::text::trimmed(list.subrange(i, j))
                == crate::text::decimal(status);
        assert(i == 0);
        assert(j == list.len());
    }
}

/// An entry anywhere in a list counts, wherever it stands and whatever stands around it.
pub proof fn every_entry_of_a_list_counts(a: Seq<char>, b: Seq<char>, status: nat)
    ensures
        crate::policy::lists_status(a + seq![','] + b, status) == (crate::policy::lists_status(
            a,
            status,
        ) || crate::policy::lists_status(b, status)),
        crate::policy::lists_status(a + seq![','] + b, status) == crate::policy::lists_status(
            b + seq![','] + a,
            status,
        ),
{
    crate::laws::joined_lists_name_what_either_names(a, b, status);
    crate::laws::joined_lists_name_what_either_names(b, a, status);
}

/// The headers after a change.
pub open spec fn edited(headers: Map<Seq<char>, Seq<char>>, edit: HeaderEditView) -> Map<
    Seq<char>,
    Seq<char>,
> {
    match edit {
        HeaderEditView::Remove(name) => headers.remove(name),
        HeaderEditView::Put(name, value) => headers.insert(name, value),
    }
}

/// The headers after changes, one after the other.
pub open spec fn edited_by_all(
    headers: Map<Seq<char>, Seq<char>>,
    edits: Seq<HeaderEditView>,
) -> Map<Seq<char>, Seq<char>>
    decreases edits.len(),
{
    if edits.len() == 0 {
        headers
    } else {
        edited(edited_by_all(headers, edits.drop_last()), edits.last())
    }
}

/// A protected response says nothing of the length and the encoding of the old body, says that it
/// is JSON, and keeps all its other headers.
pub proof fn protected_headers_describe_the_new_body(
    headers: Map<Seq<char>, Seq<char>>,
    name: Seq<char>,
)
    ensures
        ({
            let after = edited_by_all(headers, crate::policy::protected_headers());
            &&& !after.contains_key("content-length"@)
            &&& !after.contains_key("content-encoding"@)
            &&& !after.contains_key("transfer-encoding"@)
            &&& after.contains_key("content-type"@)
            &&& after["content-type"@] == "application/json"@
            &&& name != "content-length"@ && name != "content-encoding"@ && name
                != "transfer-encoding"@ && name != "content-type"@ ==> {
                &&& after.contains_key(name) == headers.contains_key(name)
                &&& headers.contains_key(name) ==> after[name] == headers[name]
            }
        }),
        crate::policy::protected_headers().len() == 4,
{
    reveal_with_fuel(edited_by_all, 5);
    reveal_strlit("content-length");
    reveal_strlit("content-encoding");
    reveal_strlit("transfer-encoding");
    reveal_strlit("content-type");
    let edits = crate::policy::protected_headers();
    let three = edits.drop_last();
    let two = three.drop_last();
    let one = two.drop_last();
    assert(one.drop_last() =~= Seq::<HeaderEditView>::empty());
    assert("content-length"@[8] != "content-type"@[8]);
    assert("content-encoding"@[8] != "content-type"@[8]);
    assert("transfer-encoding"@[0] != "content-type"@[0]);
}

// The calls of a run.

/// Filter rules are configured.
pub open spec fn has_rules(config: ConfigView) -> bool {
    config.filter_rule matches Some(lines) && lines.len() > 0
}

/// The paths of the three operations are different.
proof fn lemma_paths_differ()
    ensures
        "/Dev/filter"@ != "/Dev/datacrypt"@,
        "/Dev/filter"@ != "/Dev/datacrypt-nlp"@,
        "/Dev/datacrypt"@ != "/Dev/datacrypt-nlp"@,
{
    reveal_strlit("/Dev/filter");
    reveal_strlit("/Dev/datacrypt");
    reveal_strlit("/Dev/datacrypt-nlp");
    assert("/Dev/filter"@.len() == 11);
    assert("/Dev/datacrypt"@.len() == 14);
    assert("/Dev/datacrypt-nlp"@.len() == 18);
}

/// Without MCP mode the first call carries the whole body, whatever its members are.
pub proof fn plain_run_sends_the_whole_body(
    config: ConfigView,
    credentials: CredentialsView,
    key: Seq<char>,
    tweak: Seq<char>,
    upstream: JsonView,
)
    requires
        !config.policy_uses_mcp_response,
    ensures
        crate::policy::begun(config, credentials, key, tweak, upstream) matches StepView::Call(
            call,
            _,
        ) && call.request.data == upstream,
        crate::policy::found_data(config, upstream) == Ok::<JsonView, McpErrorView>(upstream),
{
}

/// Without MCP mode the first call on a body of JSON carries that JSON, where it is an object or
/// an array; and on a gzip stream what it holds.
pub proof fn plain_run_sends_the_json_of_the_body(
    config: ConfigView,
    credentials: CredentialsView,
    key: Seq<char>,
    tweak: Seq<char>,
    payload: Seq<u8>,
    value: JsonView,
)
    requires
        !config.policy_uses_mcp_response,
        payload.len() > 0,
        value is Object || value is Array,
        crate::codec::parsed_bytes(payload)
            == Some(value) || (seq![0x1fu8, 0x8bu8].is_prefix_of(payload)
            && crate::codec::gunzipped(payload) is Some && crate::codec::parsed_bytes(
            crate::codec::gunzipped(payload)->0,
        ) == Some(value)),
    ensures
        crate::policy::begun(
            config,
            credentials,
            key,
            tweak,
            crate::policy::upstream_json(payload),
        ) matches StepView::Call(call, _) && call.request.data == value,
{
    if crate::codec::parsed_bytes(payload) != Some(value) {
        gzip_body_is_read_as_its_content(payload, crate::codec::gunzipped(payload)->0, value);
    }
}

/// The value that the work starts from is the data of what the body was read as.
pub proof fn upstream_value_is_the_data_of_the_body(payload: Seq<u8>, value: JsonView)
    requires
        crate::payload::response_json(payload) == value,
    ensures
        value is Object || value is Array ==> crate::policy::upstream_json(payload) == value,
        value is Null || value is Bool || value is Number ==> is_wrapping(
            crate::policy::upstream_json(payload),
            value,
        ),
        value matches JsonView::Text(text)
            ==> (crate::codec::parsed_text(crate::text::trimmed(text)) is Err ==> is_wrapping(
            crate::policy::upstream_json(payload),
            value,
        )),
        crate::policy::upstream_json(payload) == crate::payload::normalized(value),
{
    if value is Null || value is Bool || value is Number {
        scalars_are_wrapped_as_they_are(value);
    }
    if let JsonView::Text(text) = value {
        strings_stand_for_what_they_hold(text, JsonView::Null);
    }
}

/// In MCP mode the first call, be it to the filter or not, carries what the text of the envelope
/// holds, and not the envelope.
pub proof fn mcp_run_sends_what_the_text_holds(
    config: ConfigView,
    credentials: CredentialsView,
    key: Seq<char>,
    tweak: Seq<char>,
    upstream: JsonView,
    content: JsonView,
    item: JsonView,
    text: Seq<char>,
    value: JsonView,
)
    requires
        config.policy_uses_mcp_response,
        leads_to_text(upstream, content, item, text),
        crate::codec::is_text_of(crate::text::trimmed(text), value),
    ensures
        crate::policy::begun(config, credentials, key, tweak, upstream) matches StepView::Call(
            call,
            _,
        ) && call.request.data == crate::payload::normalized(value) && (value is Object
            || value is Array ==> call.request.data == value),
{
    text_is_found_on_its_path(upstream, content, item, text);
}

/// In MCP mode a body without readable data is kept, with the reason.
pub proof fn mcp_run_without_data_keeps_the_body(
    config: ConfigView,
    credentials: CredentialsView,
    key: Seq<char>,
    tweak: Seq<char>,
    upstream: JsonView,
    content: JsonView,
    item: JsonView,
    text: Seq<char>,
    message: Seq<char>,
)
    requires
        config.policy_uses_mcp_response,
    ensures
        ({
            let first = crate::policy::begun(config, credentials, key, tweak, upstream);
            &&& leads_to_text(upstream, content, item, text)
                && crate::codec::parsed_text(crate::text::trimmed(text)) == Err::<
                JsonView,
                Seq<char>,
            >(message) ==> first == StepView::Done(
                OutcomeView::Keep(KeptView::NoData(McpErrorView::InvalidJson(message))),
            )
            &&& (forall|c: JsonView, i: JsonView, t: Seq<char>| !leads_to_text(upstream, c, i, t))
                ==> first == StepView::Done(
                OutcomeView::Keep(KeptView::NoData(McpErrorView::MissingText)),
            )
        }),
{
    if forall|c: JsonView, i: JsonView, t: Seq<char>| !leads_to_text(upstream, c, i, t) {
        envelope_without_a_text_has_no_data(upstream);
    }
    if leads_to_text(upstream, content, item, text) {
        text_is_found_on_its_path(upstream, content, item, text);
    }
}

/// Whatever data was found, the first call carries it, and the work that waits for its reply holds
/// the body and the four texts of the run.
pub proof fn first_call_carries_the_found_data(
    config: ConfigView,
    credentials: CredentialsView,
    key: Seq<char>,
    tweak: Seq<char>,
    upstream: JsonView,
    data: JsonView,
    error: McpErrorView,
)
    ensures
        crate::policy::started(config, credentials, key, tweak, upstream, Ok(data))
            matches StepView::Call(call, pending) && call.request.data == data && ({
            let work = crate::policy::pending_work(pending);
            &&& pending is Filter == has_rules(config)
            &&& work.data == data
            &&& work.envelope == upstream
            &&& work.credentials == credentials
            &&& work.key == key
            &&& work.tweak == tweak
            &&& work.final_token is None
        }),
        crate::policy::started(config, credentials, key, tweak, upstream, Err(error))
            == StepView::Done(OutcomeView::Keep(KeptView::NoData(error))),
        crate::policy::found_data(config, upstream) == Ok::<JsonView, McpErrorView>(data) ==> (
        crate::policy::begun(config, credentials, key, tweak, upstream) matches StepView::Call(
            call,
            pending,
        ) && call.request.data == data && crate::policy::pending_work(pending).envelope
            == upstream && crate::policy::pending_work(pending).credentials == credentials
            && crate::policy::pending_work(pending).key == key && crate::policy::pending_work(
            pending,
        ).tweak == tweak && crate::policy::pending_work(pending).final_token is None),
{
}

/// After the filter gave a token the next call carries the data of that token, the token is kept
/// for the case that the next call fails, and nothing else of the work changes.
pub proof fn filtered_data_is_what_goes_on(
    config: ConfigView,
    work: WorkView,
    token: Seq<char>,
    data: JsonView,
)
    ensures
        crate::policy::resumed(config, PendingView::Filter(work), Ok(token)) matches StepView::Call(
            call,
            PendingView::Encrypt(next),
        ) && call.request.data == crate::payload::token_data(
            crate::text::trimmed(token),
            crate::codec::parsed_text(crate::text::trimmed(token)),
        ) && next == (WorkView {
            data: call.request.data,
            final_token: Some(token),
            ..work
        }),
        crate::policy::encrypt_step(config, crate::policy::with_filtered(work, Some((token, data))))
            matches StepView::Call(call, PendingView::Encrypt(next)) && call.request.data == data
            && next == (WorkView { data, final_token: Some(token), ..work }),
{
}

/// A filter that failed, for whatever reason, leaves the work as it was: its data goes on.
pub proof fn unfiltered_data_goes_on(config: ConfigView, work: WorkView, error: ServiceErrorView)
    ensures
        crate::policy::resumed(config, PendingView::Filter(work), Err(error))
            matches StepView::Call(call, PendingView::Encrypt(next)) && call.request.data
            == work.data && next == work,
        crate::policy::with_filtered(work, None) == work,
{
}

/// The call goes to the protection that the settings ask for.
pub open spec fn goes_to_protection(config: ConfigView, path: Seq<char>) -> bool {
    if config.sensitive_fields_specified {
        path == "/Dev/datacrypt"@
    } else {
        path == "/Dev/datacrypt-nlp"@
    }
}

/// A run starts with the filter exactly where rules are configured; the protection follows, and it
/// is the encryption exactly where the sensitive fields are specified.
pub proof fn calls_go_where_the_settings_say(
    config: ConfigView,
    credentials: CredentialsView,
    key: Seq<char>,
    tweak: Seq<char>,
    upstream: JsonView,
    work: WorkView,
    reply: Result<Seq<char>, ServiceErrorView>,
)
    ensures
        crate::policy::begun(config, credentials, key, tweak, upstream) matches StepView::Call(
            call,
            pending,
        ) ==> {
            &&& has_rules(config) ==> call.path == "/Dev/filter"@ && pending is Filter
            &&& !has_rules(config) ==> goes_to_protection(config, call.path) && pending is Encrypt
        },
        crate::policy::resumed(config, PendingView::Filter(work), reply) matches StepView::Call(
            call,
            pending,
        ) && goes_to_protection(config, call.path) && pending is Encrypt,
        crate::policy::resumed(config, PendingView::Encrypt(work), reply) is Done,
        crate::policy::filter_call(config, work) is Some == has_rules(config),
        crate::policy::filter_call(config, work) matches Some(call) ==> call.path == "/Dev/filter"@,
        goes_to_protection(config, crate::policy::encrypt_call(config, work).path),
{
    lemma_paths_differ();
}

/// A call carries the key of its service: the filter and the encryption always that of DataCrypt,
/// the redaction its own where one is set and not empty.
pub open spec fn carries_its_key(config: ConfigView, call: CallView) -> bool {
    &&& call.path == "/Dev/filter"@ || call.path == "/Dev/datacrypt"@ ==> call.api_key
        == config.data_crypt_api_key
    &&& call.path == "/Dev/datacrypt-nlp"@ ==> match config.data_blind_api_key {
        Some(own) => own.len() > 0 && call.api_key == own || own.len() == 0 && call.api_key
            == config.data_crypt_api_key,
        None => call.api_key == config.data_crypt_api_key,
    }
}

/// Every call of every run carries the key of its service.
pub proof fn every_call_carries_its_key(
    config: ConfigView,
    credentials: CredentialsView,
    key: Seq<char>,
    tweak: Seq<char>,
    upstream: JsonView,
    pending: PendingView,
    reply: Result<Seq<char>, ServiceErrorView>,
    work: WorkView,
)
    ensures
        crate::policy::begun(config, credentials, key, tweak, upstream) matches StepView::Call(
            call,
            _,
        ) ==> carries_its_key(config, call),
        crate::policy::resumed(config, pending, reply) matches StepView::Call(call, _)
            ==> carries_its_key(config, call),
        crate::policy::filter_call(config, work) matches Some(call) ==> carries_its_key(
            config,
            call,
        ),
        carries_its_key(config, crate::policy::encrypt_call(config, work)),
{
    lemma_paths_differ();
}

/// The key of the redaction is its own where one is set and not empty, else that of DataCrypt.
pub proof fn redaction_has_its_own_key(config: ConfigView, own: Seq<char>)
    ensures
        own.len() > 0 ==> (ConfigView { data_blind_api_key: Some(own), ..config }).redaction_key()
            == own,
        own.len() == 0 ==> (ConfigView { data_blind_api_key: Some(own), ..config }).redaction_key()
            == config.data_crypt_api_key,
        (ConfigView { data_blind_api_key: None, ..config }).redaction_key()
            == config.data_crypt_api_key,
{
}

/// Where the sensitive fields are specified, the key of the redaction changes nothing in a run.
pub proof fn redaction_key_matters_to_the_redaction_only(
    config: ConfigView,
    own: Option<Seq<char>>,
    credentials: CredentialsView,
    key: Seq<char>,
    tweak: Seq<char>,
    upstream: JsonView,
    pending: PendingView,
    reply: Result<Seq<char>, ServiceErrorView>,
)
    requires
        config.sensitive_fields_specified,
    ensures
        ({
            let other = ConfigView { data_blind_api_key: own, ..config };
            &&& crate::policy::begun(other, credentials, key, tweak, upstream)
                == crate::policy::begun(config, credentials, key, tweak, upstream)
            &&& crate::policy::resumed(other, pending, reply) == crate::policy::resumed(
                config,
                pending,
                reply,
            )
        }),
{
}

/// Where the sensitive fields are not specified, lines of fields that are configured all the same
/// change nothing in a run.
pub proof fn field_lines_matter_where_specified_only(
    config: ConfigView,
    lines: Option<Seq<Seq<char>>>,
    credentials: CredentialsView,
    key: Seq<char>,
    tweak: Seq<char>,
    upstream: JsonView,
    pending: PendingView,
    reply: Result<Seq<char>, ServiceErrorView>,
)
    requires
        !config.sensitive_fields_specified,
    ensures
        ({
            let other = ConfigView { sensitive_fields_multi_line: lines, ..config };
            &&& crate::policy::begun(other, credentials, key, tweak, upstream)
                == crate::policy::begun(config, credentials, key, tweak, upstream)
            &&& crate::policy::resumed(other, pending, reply) == crate::policy::resumed(
                config,
                pending,
                reply,
            )
        }),
{
}

/// The filter rules matter to the first call only, and to nothing that follows it.
pub proof fn rules_matter_to_the_filter_only(
    config: ConfigView,
    rules: Option<Seq<Seq<char>>>,
    pending: PendingView,
    reply: Result<Seq<char>, ServiceErrorView>,
    work: WorkView,
)
    ensures
        ({
            let other = ConfigView { filter_rule: rules, ..config };
            &&& crate::policy::resumed(other, pending, reply) == crate::policy::resumed(
                config,
                pending,
                reply,
            )
            &&& crate::policy::encrypt_call(other, work) == crate::policy::encrypt_call(
                config,
                work,
            )
        }),
{
}

/// The reason for which a call failed changes nothing in a run.
pub proof fn failures_are_alike(
    config: ConfigView,
    pending: PendingView,
    a: ServiceErrorView,
    b: ServiceErrorView,
)
    ensures
        crate::policy::resumed(config, pending, Err(a)) == crate::policy::resumed(
            config,
            pending,
            Err(b),
        ),
{
}

/// A call carries the texts of its run: the key, the two credentials each in its place, and the
/// tweak, which the filter does not get.
pub open spec fn carries_its_texts(
    call: CallView,
    credentials: CredentialsView,
    key: Seq<char>,
    tweak: Seq<char>,
) -> bool {
    &&& call.request.key == key
    &&& call.request.over_ride_token == credentials.token
    &&& call.request.over_ride_pass_phrase == credentials.passphrase
    &&& call.path == "/Dev/filter"@ ==> call.request.tweak is None
    &&& call.path != "/Dev/filter"@ ==> call.request.tweak == Some(tweak)
}

/// A call carries what is configured for its operation: the filter the rules, the encryption the
/// fields where there are any, the redaction neither.
pub open spec fn carries_its_settings(config: ConfigView, call: CallView) -> bool {
    &&& call.path == "/Dev/filter"@ ==> call.request.sensitive_fields is None
        && call.request.filter_rule is Some && call.request.filter_rule
        == crate::config::configured_json(config.filter_rule)
    &&& call.path != "/Dev/filter"@ ==> call.request.filter_rule is None
    &&& call.path == "/Dev/datacrypt"@ ==> call.request.sensitive_fields
        == crate::config::configured_json(config.sensitive_fields_multi_line)
    &&& call.path == "/Dev/datacrypt-nlp"@ ==> call.request.sensitive_fields is None
}

/// Every call of every run carries the texts of the run and what is configured for it.
pub proof fn every_call_carries_its_texts_and_settings(
    config: ConfigView,
    credentials: CredentialsView,
    key: Seq<char>,
    tweak: Seq<char>,
    upstream: JsonView,
    work: WorkView,
    reply: Result<Seq<char>, ServiceErrorView>,
)
    ensures
        crate::policy::begun(config, credentials, key, tweak, upstream) matches StepView::Call(
            call,
            _,
        ) ==> carries_its_texts(call, credentials, key, tweak) && carries_its_settings(
            config,
            call,
        ),
        crate::policy::resumed(config, PendingView::Filter(work), reply) matches StepView::Call(
            call,
            _,
        ) ==> carries_its_texts(call, work.credentials, work.key, work.tweak)
            && carries_its_settings(config, call),
        crate::policy::filter_call(config, work) matches Some(call) ==> carries_its_texts(
            call,
            work.credentials,
            work.key,
            work.tweak,
        ) && carries_its_settings(config, call) && call.request.data == work.data,
        ({
            let call = crate::policy::encrypt_call(config, work);
            &&& carries_its_texts(call, work.credentials, work.key, work.tweak)
            &&& carries_its_settings(config, call)
            &&& call.request.data == work.data
        }),
{
    lemma_paths_differ();
}

/// A single configured line goes out as the value it holds, an array among them.
pub proof fn single_configured_line_goes_out_as_it_is(
    config: ConfigView,
    work: WorkView,
    line: Seq<char>,
    value: JsonView,
)
    requires
        crate::codec::is_text_of(line, value),
    ensures
        config.filter_rule == Some(seq![line]) ==> (crate::policy::filter_call(config, work)
            matches Some(call) && call.request.filter_rule == Some(value)),
        config.sensitive_fields_specified && config.sensitive_fields_multi_line == Some(seq![line])
            ==> crate::policy::encrypt_call(config, work).request.sensitive_fields == Some(value),
{
    single_line_is_used_as_it_is(line, value);
}

// What becomes of the body.

/// What a token gives: itself, or the envelope with the token in it.
pub open spec fn is_outcome_of(
    config: ConfigView,
    envelope: JsonView,
    token: Seq<char>,
    outcome: OutcomeView,
) -> bool {
    if !config.policy_uses_mcp_response {
        outcome == OutcomeView::Replace(token)
    } else if crate::mcp::has_content_object(envelope) {
        outcome == OutcomeView::Replace(
            crate::codec::written_text(crate::mcp::with_content_text(envelope, token)),
        )
    } else {
        outcome == OutcomeView::Keep(KeptView::NotFinalized(McpErrorView::MissingItem))
    }
}

/// The token of the protection decides, whatever it holds and whatever the filter gave; where the
/// protection failed, the token of the filter does; without a token the body is kept.
pub proof fn last_token_decides(
    config: ConfigView,
    work: WorkView,
    token: Seq<char>,
    error: ServiceErrorView,
)
    ensures
        crate::policy::resumed(config, PendingView::Encrypt(work), Ok(token))
            matches StepView::Done(
            outcome,
        ) && is_outcome_of(config, work.envelope, token, outcome),
        work.final_token matches Some(earlier) ==> (crate::policy::resumed(
            config,
            PendingView::Encrypt(work),
            Err(error),
        ) matches StepView::Done(outcome) && is_outcome_of(
            config,
            work.envelope,
            earlier,
            outcome,
        )),
        work.final_token is None ==> crate::policy::resumed(
            config,
            PendingView::Encrypt(work),
            Err(error),
        ) == StepView::Done(OutcomeView::Keep(KeptView::NoToken)),
        work.final_token matches Some(earlier) ==> is_outcome_of(
            config,
            work.envelope,
            earlier,
            crate::policy::finished(config, work),
        ),
        work.final_token is None ==> crate::policy::finished(config, work) == OutcomeView::Keep(
            KeptView::NoToken,
        ),
{
}

/// A reply of status 200 to the protection ends the run with its token, whatever the token holds:
/// the body is never kept then for want of a token.
pub proof fn successful_protection_ends_the_run(
    config: ConfigView,
    work: WorkView,
    body: Seq<u8>,
    token: Seq<char>,
)
    ensures
        crate::policy::resumed(
            config,
            PendingView::Encrypt(work),
            crate::service::reply_outcome(200, body, Ok(token)),
        ) matches StepView::Done(outcome) && is_outcome_of(config, work.envelope, token, outcome)
            && outcome != OutcomeView::Keep(KeptView::NoToken),
{
}

/// The token that a run ends with: the last that a call gave.
pub open spec fn last_given(
    first: Result<Seq<char>, ServiceErrorView>,
    second: Result<Seq<char>, ServiceErrorView>,
) -> Option<Seq<char>> {
    match (first, second) {
        (_, Ok(token)) => Some(token),
        (Ok(token), Err(_)) => Some(token),
        (Err(_), Err(_)) => None,
    }
}

/// A run without filter rules makes one call and ends with its reply.
pub proof fn run_without_rules(
    config: ConfigView,
    credentials: CredentialsView,
    key: Seq<char>,
    tweak: Seq<char>,
    upstream: JsonView,
    data: JsonView,
    reply: Result<Seq<char>, ServiceErrorView>,
)
    requires
        !has_rules(config),
        crate::policy::found_data(config, upstream) == Ok::<JsonView, McpErrorView>(data),
    ensures
        crate::policy::begun(config, credentials, key, tweak, upstream) matches StepView::Call(
            call,
            pending,
        ) && call.request.data == data && match reply {
            Ok(token) => crate::policy::resumed(config, pending, reply) matches StepView::Done(
                outcome,
            ) && is_outcome_of(config, upstream, token, outcome),
            Err(_) => crate::policy::resumed(config, pending, reply) == StepView::Done(
                OutcomeView::Keep(KeptView::NoToken),
            ),
        },
{
}

/// A run with filter rules makes two calls, whatever the first gave, and ends with the last token
/// that was given. The second call carries the data of the first token, or the data found in the
/// body where the filter failed; the token goes into the body as it came.
pub proof fn run_with_rules(
    config: ConfigView,
    credentials: CredentialsView,
    key: Seq<char>,
    tweak: Seq<char>,
    upstream: JsonView,
    data: JsonView,
    first: Result<Seq<char>, ServiceErrorView>,
    second: Result<Seq<char>, ServiceErrorView>,
)
    requires
        has_rules(config),
        crate::policy::found_data(config, upstream) == Ok::<JsonView, McpErrorView>(data),
    ensures
        crate::policy::begun(config, credentials, key, tweak, upstream) matches StepView::Call(
            call,
            pending,
        ) && call.request.data == data && (crate::policy::resumed(config, pending, first)
            matches StepView::Call(next, waiting) && next.request.data == (match first {
            Ok(token) => crate::payload::token_data(crate::text::trimmed(
                token), crate::codec::parsed_text(crate::text::trimmed(token))),
            Err(_) => data,
        }) && carries_its_texts(next, credentials, key, tweak) && match last_given(first, second) {
            Some(token) => crate::policy::resumed(config, waiting, second) matches StepView::Done(
                outcome,
            ) && is_outcome_of(config, upstream, token, outcome),
            None => crate::policy::resumed(config, waiting, second) == StepView::Done(
                OutcomeView::Keep(KeptView::NoToken),
            ),
        }),
{
    lemma_paths_differ();
}

// Descriptions.

/// An array is described by its length, the error payload by its error.
pub proof fn arrays_and_errors_are_described(
    items: Seq<JsonView>,
    map: Map<Seq<char>, JsonView>,
    error: Seq<char>,
)
    ensures
        crate::describe::description(JsonView::Array(items)) == "array len="@
            + crate::text::decimal(items.len()),
        map.contains_key("error"@) && map["error"@] == JsonView::Text(error)
            ==> crate::describe::description(JsonView::Object(map)) == "error={\"error\":\""@
            + error + "\"}"@,
{
}

/// An object without a string under `error` is described by its keys in order: all of them, or the
/// first eight.
pub proof fn objects_are_described_by_their_first_keys(
    map: Map<Seq<char>, JsonView>,
    keys: Seq<Seq<char>>,
)
    requires
        forall|i: int, j: int|
            0 <= i < j < keys.len() ==> crate::text::text_before(
                #[trigger] keys[i],
                #[trigger] keys[j],
            ),
        keys.to_set() == map.dom(),
        map.contains_key("error"@) ==> !(map["error"@] is Text),
    ensures
        crate::describe::first_keys(map) == (if keys.len() <= 8 {
            keys
        } else {
            keys.take(8)
        }),
        crate::describe::description(JsonView::Object(map)) == "object keys="@
            + crate::describe::debug_list(
            if keys.len() <= 8 {
                keys
            } else {
                keys.take(8)
            },
        ),
{
    assert(crate::json::ascending(keys));
    let found = crate::json::sorted_keys(map);
    assert(crate::json::ascending(found) && found.to_set() == map.dom());
    crate::json::lemma_ascending_unique(found, keys);
}

/// Any other value is described by its compact text: whole where it has at most 120 bytes, else its
/// first 120 bytes and three dots. It has no description where a character lies across that end.
pub proof fn scalars_are_described_by_their_text(value: JsonView)
    requires
        !(value is Object),
        !(value is Array),
    ensures
        ({
            let text = crate::codec::written_text(value);
            let bytes = vstd::utf8::encode_utf8(text);
            &&& bytes.len() <= 120 ==> {
                &&& crate::describe::can_describe(value)
                &&& crate::describe::description(value) == text
            }
            &&& bytes.len() > 120 ==> {
                &&& crate::describe::can_describe(value) == vstd::utf8::is_char_boundary(bytes, 120)
                &&& crate::describe::description(value) == vstd::utf8::decode_utf8(
                    bytes.subrange(0, 120),
                ) + "..."@
            }
        }),
{
}

/// A text is cut behind 120 bytes, where a character ends there.
pub proof fn texts_are_cut_behind_120_bytes(text: Seq<char>)
    ensures
        ({
            let bytes = vstd::utf8::encode_utf8(text);
            &&& bytes.len() <= 120 ==> {
                &&& crate::describe::can_clip(text)
                &&& crate::describe::clipped(text) == text
            }
            &&& bytes.len() > 120 ==> {
                &&& crate::describe::can_clip(text) == vstd::utf8::is_char_boundary(bytes, 120)
                &&& crate::describe::clipped(text) == vstd::utf8::decode_utf8(
                    bytes.subrange(0, 120),
                ) + "..."@
            }
        }),
{
}

// What the models show.

/// The model of the settings shows what the decisions read of them, each under its name.
pub proof fn settings_are_shown(config: crate::config::Config)
    ensures
        config@.data_crypt_api_key == config.data_crypt_api_key@,
        config@.policy_uses_mcp_response == config.policy_uses_mcp_response,
        config@.sensitive_fields_specified == config.sensitive_fields_specified,
        config.data_blind_api_key matches Some(key) ==> config@.data_blind_api_key == Some(key@),
        config.data_blind_api_key is None ==> config@.data_blind_api_key is None,
        config.filter_rule matches Some(lines) ==> (config@.filter_rule matches Some(shown)
            && shown.len() == lines@.len() && forall|i: int|
            0 <= i < shown.len() ==> #[trigger] shown[i] == lines@[i]@),
        config.filter_rule is None ==> config@.filter_rule is None,
        config.sensitive_fields_multi_line matches Some(lines) ==> (
        config@.sensitive_fields_multi_line matches Some(shown) && shown.len() == lines@.len()
            && forall|i: int| 0 <= i < shown.len() ==> #[trigger] shown[i] == lines@[i]@),
        config.sensitive_fields_multi_line is None ==> config@.sensitive_fields_multi_line is None,
{
}

/// The model of a call shows each part of it.
pub proof fn calls_are_shown(
    call: crate::service::ServiceCall,
    credentials: crate::service::OverrideCredentials,
)
    ensures
        call@.path == call.path@,
        call@.api_key == call.api_key@,
        call@.request.key == call.request.key@,
        call@.request.data == call.request.data@,
        call@.request.over_ride_token == call.request.over_ride_token@,
        call@.request.over_ride_pass_phrase == call.request.over_ride_pass_phrase@,
        call.request.tweak matches Some(tweak) ==> call@.request.tweak == Some(tweak@),
        call.request.tweak is None ==> call@.request.tweak is None,
        call.request.sensitive_fields matches Some(value) ==> call@.request.sensitive_fields
            == Some(
            value@,
        ),
        call.request.sensitive_fields is None ==> call@.request.sensitive_fields is None,
        call.request.filter_rule matches Some(value) ==> call@.request.filter_rule == Some(value@),
        call.request.filter_rule is None ==> call@.request.filter_rule is None,
        credentials@.token == credentials.token@,
        credentials@.passphrase == credentials.passphrase@,
{
}

/// The model of the work shows each part of it.
pub proof fn work_is_shown(work: crate::policy::Work)
    ensures
        work@.credentials == work.credentials@,
        work@.key == work.key@,
        work@.tweak == work.tweak@,
        work@.envelope == work.envelope@,
        work@.data == work.data@,
        work.final_token matches Some(token) ==> work@.final_token == Some(token@),
        work.final_token is None ==> work@.final_token is None,
{
}

/// The model of a step shows what it is and what it holds.
pub proof fn steps_are_shown(
    call: crate::service::ServiceCall,
    work: crate::policy::Work,
    body: String,
    error: crate::mcp::McpError,
)
    ensures
        crate::policy::Step::Call(call, crate::policy::Pending::Filter(work))@ == StepView::Call(
            call@,
            PendingView::Filter(work@),
        ),
        crate::policy::Step::Call(call, crate::policy::Pending::Encrypt(work))@ == StepView::Call(
            call@,
            PendingView::Encrypt(work@),
        ),
        crate::policy::Step::Done(crate::policy::Outcome::Replace(body))@ == StepView::Done(
            OutcomeView::Replace(body@),
        ),
        crate::policy::Step::Done(
            crate::policy::Outcome::Keep(crate::policy::Kept::NoData(error)),
        )@ == StepView::Done(OutcomeView::Keep(KeptView::NoData(error@))),
        crate::policy::Step::Done(
            crate::policy::Outcome::Keep(crate::policy::Kept::NotFinalized(error)),
        )@ == StepView::Done(OutcomeView::Keep(KeptView::NotFinalized(error@))),
        crate::policy::Step::Done(crate::policy::Outcome::Keep(crate::policy::Kept::NoToken))@
            == StepView::Done(OutcomeView::Keep(KeptView::NoToken)),
{
}

/// The models of errors show which they are and what they hold.
pub proof fn errors_are_shown(text: String, status: u32)
    ensures
        crate::mcp::McpError::MissingText@ == McpErrorView::MissingText,
        crate::mcp::McpError::MissingItem@ == McpErrorView::MissingItem,
        crate::mcp::McpError::InvalidJson(text)@ == McpErrorView::InvalidJson(text@),
        crate::mcp::McpError::NotWritten(text)@ == McpErrorView::NotWritten(text@),
        crate::service::ServiceError::NotSent(text)@ == ServiceErrorView::NotSent(text@),
        crate::service::ServiceError::BadBody(text)@ == ServiceErrorView::BadBody(text@),
        crate::service::ServiceError::Status(status, text)@ == ServiceErrorView::Status(
            status,
            text@,
        ),
{
}

/// The models of results show the value or the error that came.
pub proof fn results_are_shown(
    text: String,
    value: crate::json::Json,
    error: crate::service::ServiceError,
    fault: crate::mcp::McpError,
)
    ensures
        crate::service::reply_model(Ok(text)) matches Ok(token) && token == text@,
        crate::service::reply_model(Err(error)) matches Err(shown) && shown == error@,
        crate::codec::writing_model(Ok(text)) matches Ok(written) && written == text@,
        crate::codec::writing_model(Err(text)) matches Err(message) && message == text@,
        crate::codec::read_model(Ok(value)) matches Ok(read) && read == value@,
        crate::codec::read_model(Err(text)) matches Err(message) && message == text@,
        crate::codec::option_model(Some(value)) == Some(value@),
        crate::codec::option_model(None) is None,
        crate::config::option_text(Some(text)) == Some(text@),
        crate::config::option_text(None) is None,
        crate::mcp::extraction_model(Ok(value)) matches Ok(data) && data == value@,
        crate::mcp::extraction_model(Err(fault)) matches Err(shown) && shown == fault@,
        crate::mcp::serialization_model(Ok(text)) matches Ok(body) && body == text@,
        crate::mcp::serialization_model(Err(fault)) matches Err(shown) && shown == fault@,
        crate::policy::filtered_model(Some((text, value))) == Some((text@, value@)),
        crate::policy::filtered_model(None) is None,
        crate::json::ref_model(Some(&value)) == Some(value@),
        crate::json::ref_model(None) is None,
{
}

/// The models of lists show each entry in its place.
pub proof fn lists_are_shown(
    lines: Seq<String>,
    headers: Seq<(String, String)>,
    edits: Seq<crate::policy::HeaderEdit>,
    name: String,
    value: String,
    i: int,
)
    ensures
        crate::payload::texts(lines).len() == lines.len(),
        0 <= i < lines.len() ==> crate::payload::texts(lines)[i] == lines[i]@,
        crate::service::header_texts(headers).len() == headers.len(),
        0 <= i < headers.len() ==> crate::service::header_texts(headers)[i] == (
            headers[i].0@,
            headers[i].1@,
        ),
        crate::policy::edit_views(edits).len() == edits.len(),
        0 <= i < edits.len() ==> crate::policy::edit_views(edits)[i] == edits[i]@,
        crate::policy::HeaderEdit::Remove(name)@ == HeaderEditView::Remove(name@),
        crate::policy::HeaderEdit::Put(name, value)@ == HeaderEditView::Put(name@, value@),
{
}

/// The model of a JSON value shows what it is and what it holds.
pub proof fn values_are_shown(
    b: bool,
    n: serde_json::Number,
    text: String,
    items: Vec<crate::json::Json>,
    object: crate::json::JsonObject,
    i: int,
)
    ensures
        crate::json::Json::Null@ == JsonView::Null,
        crate::json::Json::Bool(b)@ == JsonView::Bool(b),
        crate::json::Json::Number(n)@ == JsonView::Number(n),
        crate::json::Json::Text(text)@ == JsonView::Text(text@),
        crate::json::Json::Object(object)@ == JsonView::Object(object@),
        crate::json::Json::Array(items)@ matches JsonView::Array(shown) && shown.len()
            == items@.len() && (0 <= i < shown.len() ==> shown[i] == items@[i]@),
{
    crate::json::lemma_models(items@);
}

} // verus!
