//! Short descriptions of data for the log.

use vstd::prelude::*;
use vstd::string::*;

use crate::codec::write_text;
use crate::json::{Json, JsonObject, JsonView};
use crate::text::decimal_text;

verus! {

/// How many keys of an object a description lists.
pub const LISTED_KEYS: usize = 8;

/// How many bytes of a compact text a description shows.
pub const SHOWN_BYTES: usize = 120;

/// What the `Debug` format of std makes of a list of strings.
pub uninterp spec fn debug_list(items: Seq<Seq<char>>) -> Seq<char>;

/// Formats a `Vec<String>` with `{:?}`, and names what comes back. The items stand in square
/// brackets.
#[verifier::external_body]
fn debug_text(items: &Vec<String>) -> (r: String)
    ensures
        r@ == debug_list(crate::payload::texts(items@)),
        r@.len() > 0 && r@[0] == '[',
{
    format!("{:?}", items)
}

/// The first keys of an object, in ascending order.
pub open spec fn first_keys(object: Map<Seq<char>, JsonView>) -> Seq<Seq<char>> {
    let keys = crate::json::sorted_keys(object);
    if keys.len() <= LISTED_KEYS {
        keys
    } else {
        keys.take(LISTED_KEYS as int)
    }
}

/// The text of the member `error`, where it is a string.
pub open spec fn error_text(value: JsonView) -> Option<Seq<char>> {
    match crate::json::member(value, "error"@) {
        Some(error) => crate::json::text_of(error),
        None => None,
    }
}

/// A text can be cut behind the bytes that are shown.
pub open spec fn can_clip(text: Seq<char>) -> bool {
    let bytes = vstd::utf8::encode_utf8(text);
    bytes.len() > SHOWN_BYTES ==> vstd::utf8::is_char_boundary(bytes, SHOWN_BYTES as int)
}

/// A text, cut behind the bytes that are shown if it is longer.
pub open spec fn clipped(text: Seq<char>) -> Seq<char> {
    let bytes = vstd::utf8::encode_utf8(text);
    if bytes.len() > SHOWN_BYTES {
        vstd::utf8::decode_utf8(bytes.subrange(0, SHOWN_BYTES as int)) + "..."@
    } else {
        text
    }
}

/// A value has a description: it is an object or an array, or its compact text can be cut.
pub open spec fn can_describe(value: JsonView) -> bool {
    crate::payload::is_container(value) || can_clip(crate::codec::written_text(value))
}

/// The description of the error payload of the service.
pub open spec fn error_description(error: Seq<char>) -> Seq<char> {
    "error={\"error\":\""@ + error + "\"}"@
}

/// The description of a value.
pub open spec fn description(value: JsonView) -> Seq<char> {
    match error_text(value) {
        Some(error) => error_description(error),
        None => match value {
            JsonView::Object(object) => "object keys="@ + debug_list(first_keys(object)),
            JsonView::Array(items) => "array len="@ + crate::text::decimal(items.len()),
            _ => clipped(crate::codec::written_text(value)),
        },
    }
}

/// The description of an object or an array says which of the two it is: an array is described by
/// its length, an object by its error or by its keys.
pub open spec fn tells_kind(text: Seq<char>, value: JsonView) -> bool {
    &&& value matches JsonView::Array(items) ==> text == "array len="@ + crate::text::decimal(
        items.len(),
    )
    &&& value is Object ==> if error_text(value) is Some {
        "error={"@.is_prefix_of(text)
    } else {
        "object keys=["@.is_prefix_of(text)
    }
    &&& value is Object ==> !"array len="@.is_prefix_of(text)
}

/// The first keys of an object, in ascending order.
pub fn list_keys(object: &JsonObject) -> (r: Vec<String>)
    ensures
        crate::payload::texts(r@) == first_keys(object@),
{
    let n = object.len();
    let mut keys: Vec<String> = Vec::new();
    let mut i: usize = 0;
    while i < n && i < LISTED_KEYS
        invariant
            i <= n,
            i <= LISTED_KEYS,
            n == crate::json::sorted_keys(object@).len(),
            keys@.len() == i,
            forall|j: int|
                0 <= j < i ==> (#[trigger] keys@[j])@ == crate::json::sorted_keys(object@)[j],
        decreases n - i,
    {
        let (key, _) = object.entry(i);
        keys.push(key.clone());
        i += 1;
    }
    assert(crate::payload::texts(keys@) =~= first_keys(object@));
    keys
}

/// Whether a text can be cut behind the bytes that are shown.
pub fn is_clippable(text: &str) -> (r: bool)
    ensures
        r == can_clip(text@),
{
    let n = text.as_bytes().len();
    n <= SHOWN_BYTES || text.is_char_boundary(SHOWN_BYTES)
}

/// A text, cut behind the bytes that are shown if it is longer.
pub fn clip(text: &str) -> (r: String)
    requires
        can_clip(text@),
    ensures
        r@ == clipped(text@),
{
    let n = text.as_bytes().len();
    if n > SHOWN_BYTES {
        let (shown, _) = text.split_at(SHOWN_BYTES);
        proof {
            vstd::utf8::encode_utf8_decode_utf8(shown@);
        }
        shown.to_owned().concat("...")
    } else {
        text.to_owned()
    }
}

/// The description of an error payload starts as one, and not as that of an array.
proof fn lemma_error_description(error: Seq<char>)
    ensures
        "error={"@.is_prefix_of(error_description(error)),
        !"array len="@.is_prefix_of(error_description(error)),
{
    reveal_strlit("error={");
    reveal_strlit("error={\"error\":\"");
    reveal_strlit("array len=");
    let text = error_description(error);
    assert("error={"@ =~= text.subrange(0, "error={"@.len() as int));
    assert(text[0] == 'e');
    assert("array len="@[0] == 'a');
}

/// The description of listed keys starts as one, and not as that of an array.
proof fn lemma_keys_description(listed: Seq<char>)
    requires
        listed.len() > 0,
        listed[0] == '[',
    ensures
        "object keys=["@.is_prefix_of("object keys="@ + listed),
        !"array len="@.is_prefix_of("object keys="@ + listed),
{
    reveal_strlit("object keys=");
    reveal_strlit("object keys=[");
    reveal_strlit("array len=");
    let text = "object keys="@ + listed;
    assert("object keys=["@ =~= text.subrange(0, "object keys=["@.len() as int));
    assert(text[0] == 'o');
    assert("array len="@[0] == 'a');
}

/// Describes a value for the log.
pub fn describe_data_for_log(value: &Json) -> (r: String)
    requires
        can_describe(value@),
    ensures
        r@ == description(value@),
        tells_kind(r@, value@),
{
    if let Some(error) = value.get("error") {
        if let Some(text) = error.as_text() {
            proof {
                lemma_error_description(text@);
            }
            return "error={\"error\":\"".to_owned().concat(text.as_str()).concat("\"}");
        }
    }
    match value {
        Json::Object(object) => {
            let listed = debug_text(&list_keys(object));
            proof {
                lemma_keys_description(listed@);
            }
            "object keys=".to_owned().concat(listed.as_str())
        },
        Json::Array(items) => {
            proof {
                crate::json::lemma_models(items@);
            }
            "array len=".to_owned().concat(decimal_text(items.len() as u64).as_str())
        },
        other => match write_text(other) {
            Ok(compact) => clip(compact.as_str()),
            // The writer does not fail on a JSON value.
            Err(_) => String::new(),
        },
    }
}

/// Describes a value for the log, if it has a description.
pub fn try_describe(value: &Json) -> (r: Option<String>)
    ensures
        match r {
            Some(text) => can_describe(value@) && text@ == description(value@),
            None => !can_describe(value@),
        },
        r matches Some(text) ==> tells_kind(text@, value@),
{
    let describable = match value {
        Json::Object(_) => true,
        Json::Array(_) => true,
        other => match write_text(other) {
            Ok(compact) => is_clippable(compact.as_str()),
            Err(_) => false,
        },
    };
    if describable {
        Some(describe_data_for_log(value))
    } else {
        None
    }
}

} // verus!
