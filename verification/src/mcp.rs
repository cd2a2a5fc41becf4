//! MCP-style envelopes: the data that `content[0].text` carries.

use vstd::prelude::*;
use vstd::string::*;

use crate::codec::{read_text, write_text};
use crate::json::{Json, JsonView};
use crate::payload::normalize_data_for_datacrypt;
use crate::text::trim;

verus! {

/// Why an envelope could not be read, changed or written.
#[derive(Debug, PartialEq, Eq)]
pub enum McpError {
    /// `content[0].text` is not there, or is not a string.
    MissingText,
    /// `content[0].text` is not JSON; holds the message of the reader.
    InvalidJson(String),
    /// `content[0]` is not there, or is not an object.
    MissingItem,
    /// The envelope could not be written; holds the message of the writer.
    NotWritten(String),
}

/// What an error says.
#[verifier::ext_equal]
pub enum McpErrorView {
    MissingText,
    InvalidJson(Seq<char>),
    MissingItem,
    NotWritten(Seq<char>),
}

impl View for McpError {
    type V = McpErrorView;

    open spec fn view(&self) -> McpErrorView {
        match self {
            McpError::MissingText => McpErrorView::MissingText,
            McpError::InvalidJson(message) => McpErrorView::InvalidJson(message@),
            McpError::MissingItem => McpErrorView::MissingItem,
            McpError::NotWritten(message) => McpErrorView::NotWritten(message@),
        }
    }
}

/// The sentence for an error.
pub open spec fn error_sentence(error: McpErrorView) -> Seq<char> {
    match error {
        McpErrorView::MissingText => "MCP response missing content[0].text string"@,
        McpErrorView::InvalidJson(message) => "MCP content[0].text is not valid JSON: "@ + message,
        McpErrorView::MissingItem => "MCP response missing content[0] object"@,
        McpErrorView::NotWritten(message) => "Failed to serialize MCP envelope: "@ + message,
    }
}

impl McpError {
    /// The sentence for the error.
    pub fn message(&self) -> (r: String)
        ensures
            r@ == error_sentence(self@),
    {
        match self {
            McpError::MissingText => "MCP response missing content[0].text string".to_owned(),
            McpError::InvalidJson(message) => "MCP content[0].text is not valid JSON: ".to_owned().concat(
                message.as_str(),
            ),
            McpError::MissingItem => "MCP response missing content[0] object".to_owned(),
            McpError::NotWritten(message) => "Failed to serialize MCP envelope: ".to_owned().concat(
                message.as_str(),
            ),
        }
    }
}

/// `content[0]` of an envelope.
pub open spec fn content_item(envelope: JsonView) -> Option<JsonView> {
    match crate::json::member(envelope, "content"@) {
        Some(content) => crate::json::child_zero(content),
        None => None,
    }
}

/// `content[0].text` of an envelope, where it is a string.
pub open spec fn content_text(envelope: JsonView) -> Option<Seq<char>> {
    match content_item(envelope) {
        Some(item) => match crate::json::member(item, "text"@) {
            Some(text) => crate::json::text_of(text),
            None => None,
        },
        None => None,
    }
}

/// The data that the reading of `content[0].text` gives.
pub open spec fn extracted_reading(reading: Result<JsonView, Seq<char>>) -> Result<
    JsonView,
    McpErrorView,
> {
    match reading {
        Ok(value) => Ok(crate::payload::normalized(value)),
        Err(message) => Err(McpErrorView::InvalidJson(message)),
    }
}

/// The data that `content[0].text` of an envelope carries.
pub open spec fn extracted(envelope: JsonView) -> Result<JsonView, McpErrorView> {
    match content_text(envelope) {
        Some(text) => extracted_reading(
            crate::codec::parsed_text(crate::text::trimmed(text)),
        ),
        None => Err(McpErrorView::MissingText),
    }
}

/// The model of the outcome of an extraction.
pub open spec fn extraction_model(extraction: Result<Json, McpError>) -> Result<
    JsonView,
    McpErrorView,
> {
    match extraction {
        Ok(value) => Ok(value@),
        Err(error) => Err(error@),
    }
}

/// The text at `content[0].text`.
pub fn find_content_text(envelope: &Json) -> (r: Option<&String>)
    ensures
        match r {
            Some(text) => content_text(envelope@) == Some(text@),
            None => content_text(envelope@) is None,
        },
{
    match envelope.get("content") {
        Some(content) => match content.get_zero() {
            Some(item) => match item.get("text") {
                Some(text) => text.as_text(),
                None => None,
            },
            None => None,
        },
        None => None,
    }
}

/// The data that the reading of `content[0].text` gives.
pub fn extract_reading(reading: Result<Json, String>) -> (r: Result<Json, McpError>)
    ensures
        extraction_model(r) == extracted_reading(crate::codec::read_model(reading)),
        r matches Ok(value) ==> crate::payload::is_container(value@),
        (reading matches Ok(value) ==> crate::codec::nests_within(
            value@,
            crate::codec::nesting_limit(),
        )) ==> (r matches Ok(data) ==> crate::codec::nests_within(
            data@,
            crate::codec::nesting_limit(),
        )),
{
    match reading {
        Ok(value) => Ok(normalize_data_for_datacrypt(value)),
        Err(message) => Err(McpError::InvalidJson(message)),
    }
}

/// Reads `content[0].text` of an envelope as JSON, and makes it into data for the service. A text
/// that is JSON gives the data of what it is read as.
pub fn extract_mcp_content_text(envelope: &Json) -> (r: Result<Json, McpError>)
    ensures
        extraction_model(r) == extracted(envelope@),
        r matches Ok(value) ==> crate::payload::is_container(value@),
        content_text(envelope@) matches Some(text) ==> crate::codec::parsed_text(text) matches Ok(
            read,
        ) ==> (r matches Ok(value) && value@ == crate::payload::normalized(read)),
        r matches Ok(value) ==> crate::codec::nests_within(value@, crate::codec::nesting_limit()),
{
    match find_content_text(envelope) {
        Some(text) => extract_reading(read_text(trim(text.as_str()))),
        None => Err(McpError::MissingText),
    }
}

/// `content[0]` of an envelope is an object.
pub open spec fn has_content_object(envelope: JsonView) -> bool {
    content_item(envelope) matches Some(item) && item is Object
}

/// An object with `text` under the key `text`.
pub open spec fn with_text(item: JsonView, text: Seq<char>) -> JsonView {
    JsonView::Object(item->Object_0.insert("text"@, JsonView::Text(text)))
}

/// A value with `child` in the place that the step `0` of a JSON pointer leads to.
pub open spec fn with_child_zero(value: JsonView, child: JsonView) -> JsonView {
    match value {
        JsonView::Array(items) => JsonView::Array(items.update(0, child)),
        JsonView::Object(object) => JsonView::Object(object.insert("0"@, child)),
        _ => value,
    }
}

/// An envelope with `text` at `content[0].text`.
pub open spec fn with_content_text(envelope: JsonView, text: Seq<char>) -> JsonView {
    let content = envelope->Object_0["content"@];
    let item = content_item(envelope)->0;
    JsonView::Object(
        envelope->Object_0.insert("content"@, with_child_zero(content, with_text(item, text))),
    )
}

/// Whether `content[0]` of the envelope is an object.
pub fn is_content_object(envelope: &Json) -> (r: bool)
    ensures
        r == has_content_object(envelope@),
{
    match envelope.get("content") {
        Some(content) => match content.get_zero() {
            Some(Json::Object(_)) => true,
            _ => false,
        },
        None => false,
    }
}

/// An object with `token` under the key `text`.
fn set_text(item: Json, token: &str) -> (r: Json)
    requires
        item@ is Object,
    ensures
        r@ == with_text(item@, token@),
{
    match item {
        Json::Object(object) => {
            let mut object = object;
            object.insert("text".to_owned(), Json::Text(token.to_owned()));
            Json::Object(object)
        },
        other => other,
    }
}

/// A content with `token` as the text of its first item.
fn set_child_text(content: Json, token: &str) -> (r: Json)
    requires
        crate::json::child_zero(content@) matches Some(item) && item is Object,
    ensures
        r@ == with_child_zero(
            content@,
            with_text(crate::json::child_zero(content@)->0, token@),
        ),
{
    match content {
        Json::Array(items) => {
            let mut items = items;
            let ghost before = items@;
            proof {
                crate::json::lemma_models(before);
            }
            let mut item = Json::Null;
            std::mem::swap(&mut item, &mut items[0]);
            items[0] = set_text(item, token);
            proof {
                crate::json::lemma_models(items@);
                assert(crate::json::models(items@) =~= crate::json::models(before).update(
                    0,
                    with_text(before[0]@, token@),
                ));
            }
            Json::Array(items)
        },
        Json::Object(object) => {
            let mut object = object;
            match object.remove("0") {
                Some(item) => {
                    let ghost before = content@->Object_0;
                    object.insert("0".to_owned(), set_text(item, token));
                    assert(object@ =~= before.insert("0"@, with_text(before["0"@], token@)));
                },
                None => {},
            }
            Json::Object(object)
        },
        other => other,
    }
}

/// An envelope with `token` at `content[0].text`.
fn set_content_text(envelope: Json, token: &str) -> (r: Json)
    requires
        has_content_object(envelope@),
    ensures
        r@ == with_content_text(envelope@, token@),
{
    match envelope {
        Json::Object(object) => {
            let mut object = object;
            match object.remove("content") {
                Some(content) => {
                    let ghost before = envelope@->Object_0;
                    object.insert("content".to_owned(), set_child_text(content, token));
                    assert(object@ =~= before.insert(
                        "content"@,
                        with_child_zero(
                            before["content"@],
                            with_text(content_item(envelope@)->0, token@),
                        ),
                    ));
                },
                None => {},
            }
            Json::Object(object)
        },
        other => other,
    }
}

/// Writes a token of the service back into `content[0].text` of an envelope. An envelope without
/// an object at `content[0]` stays as it is.
pub fn apply_mcp_content_text(envelope: &mut Json, token: &str) -> (r: Result<(), McpError>)
    ensures
        match r {
            Ok(()) => {
                &&& has_content_object(old(envelope)@)
                &&& final(envelope)@ == with_content_text(old(envelope)@, token@)
            },
            Err(error) => {
                &&& !has_content_object(old(envelope)@)
                &&& error@ == McpErrorView::MissingItem
                &&& final(envelope)@ == old(envelope)@
            },
        },
{
    if !is_content_object(&*envelope) {
        return Err(McpError::MissingItem);
    }
    let mut taken = Json::Null;
    std::mem::swap(&mut taken, envelope);
    *envelope = set_content_text(taken, token);
    Ok(())
}

/// The text of an envelope, or why it was not written.
pub open spec fn serialized(writing: Result<Seq<char>, Seq<char>>) -> Result<
    Seq<char>,
    McpErrorView,
> {
    match writing {
        Ok(text) => Ok(text),
        Err(message) => Err(McpErrorView::NotWritten(message)),
    }
}

/// The model of the outcome of a serialization.
pub open spec fn serialization_model(serialization: Result<String, McpError>) -> Result<
    Seq<char>,
    McpErrorView,
> {
    match serialization {
        Ok(text) => Ok(text@),
        Err(error) => Err(error@),
    }
}

/// The text of an envelope, given what the writer gave.
pub fn settle_writing(writing: Result<String, String>) -> (r: Result<String, McpError>)
    ensures
        serialization_model(r) == serialized(crate::codec::writing_model(writing)),
{
    match writing {
        Ok(text) => Ok(text),
        Err(message) => Err(McpError::NotWritten(message)),
    }
}

/// Writes an envelope as compact JSON: the writer does not fail on a JSON value.
pub fn serialize_mcp_envelope(envelope: &Json) -> (r: Result<String, McpError>)
    ensures
        r matches Ok(text) && text@ == crate::codec::written_text(envelope@),
        r matches Ok(text) ==> crate::codec::reads_back(envelope@, crate::codec::nesting_limit())
            ==> crate::codec::is_text_of(text@, envelope@),
{
    settle_writing(write_text(envelope))
}

/// The text of an envelope with `token` at `content[0].text`.
pub open spec fn finalized(envelope: JsonView, token: Seq<char>) -> Result<Seq<char>, McpErrorView> {
    if has_content_object(envelope) {
        Ok(crate::codec::written_text(with_content_text(envelope, token)))
    } else {
        Err(McpErrorView::MissingItem)
    }
}

/// Puts the last token into the envelope, and writes the envelope as compact JSON.
pub fn finalize_mcp_response(envelope: &mut Json, final_token: &str) -> (r: Result<
    String,
    McpError,
>)
    ensures
        serialization_model(r) == finalized(old(envelope)@, final_token@),
        final(envelope)@ == (if has_content_object(old(envelope)@) {
            with_content_text(old(envelope)@, final_token@)
        } else {
            old(envelope)@
        }),
        r matches Ok(text) ==> crate::codec::reads_back(final(envelope)@, crate::codec::nesting_limit())
            ==> crate::codec::is_text_of(text@, final(envelope)@),
{
    match apply_mcp_content_text(envelope, final_token) {
        Ok(()) => serialize_mcp_envelope(&*envelope),
        Err(error) => Err(error),
    }
}

} // verus!
