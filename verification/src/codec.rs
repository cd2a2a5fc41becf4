//! Reading and writing: JSON texts, gzip streams and raw bytes.

use vstd::prelude::*;

use crate::json::{Json, JsonObject, JsonView};

verus! {

/// Carries a value of `serde_json` between the calls below.
#[verifier::external_type_specification]
#[verifier::external_body]
pub struct ExValue(serde_json::Value);

/// The JSON value that a `serde_json::Value` holds.
pub uninterp spec fn value_model(value: serde_json::Value) -> JsonView;

/// What `serde_json::from_str` reads in a text: the value, or the message of the error.
pub uninterp spec fn parsed_text(text: Seq<char>) -> Result<JsonView, Seq<char>>;

/// What `serde_json::to_string` writes for a value.
pub uninterp spec fn written_text(value: JsonView) -> Seq<char>;

/// What `serde_json::Number::is_f64` says of a number.
pub uninterp spec fn is_float(number: serde_json::Number) -> bool;

/// What `flate2::read::GzDecoder` makes of bytes that start as a gzip stream does: the content, if
/// they start with one whole gzip member.
pub uninterp spec fn gunzipped(bytes: Seq<u8>) -> Option<Seq<u8>>;

/// What `String::from_utf8_lossy` makes of some bytes.
pub uninterp spec fn lossy_text(bytes: Seq<u8>) -> Seq<char>;

/// A `serde_json::Value` with its outermost layer in the open.
pub enum ValueLayer {
    Null,
    Bool(bool),
    Number(serde_json::Number),
    Text(String),
    Array(Vec<serde_json::Value>),
    Object(Vec<(String, serde_json::Value)>),
}

/// The keys of a sequence of members.
pub open spec fn pair_keys(pairs: Seq<(String, serde_json::Value)>) -> Seq<Seq<char>> {
    Seq::new(pairs.len(), |i: int| pairs[i].0@)
}

/// The map that a sequence of members describes.
pub open spec fn pair_members(pairs: Seq<(String, serde_json::Value)>) -> Map<Seq<char>, JsonView>
    decreases pairs.len(),
{
    if pairs.len() == 0 {
        Map::empty()
    } else {
        pair_members(pairs.drop_last()).insert(pairs.last().0@, value_model(pairs.last().1))
    }
}

/// The JSON value that a layer holds.
pub open spec fn layer_model(layer: ValueLayer) -> JsonView {
    match layer {
        ValueLayer::Null => JsonView::Null,
        ValueLayer::Bool(b) => JsonView::Bool(b),
        ValueLayer::Number(n) => JsonView::Number(n),
        ValueLayer::Text(s) => JsonView::Text(s@),
        ValueLayer::Array(items) => JsonView::Array(
            Seq::new(items@.len(), |i: int| value_model(items@[i])),
        ),
        ValueLayer::Object(pairs) => JsonView::Object(pair_members(pairs@)),
    }
}

/// No key occurs twice among the members, if the layer is an object.
pub open spec fn distinct_keys(layer: ValueLayer) -> bool {
    layer matches ValueLayer::Object(pairs) ==> pair_keys(pairs@).no_duplicates()
}

/// Takes a `serde_json::Value` apart. An object is walked with `Map::into_iter`, which hands
/// out each key once.
#[verifier::external_body]
fn open_value(value: serde_json::Value) -> (r: ValueLayer)
    ensures
        layer_model(r) == value_model(value),
        distinct_keys(r),
{
    match value {
        serde_json::Value::Null => ValueLayer::Null,
        serde_json::Value::Bool(b) => ValueLayer::Bool(b),
        serde_json::Value::Number(n) => ValueLayer::Number(n),
        serde_json::Value::String(s) => ValueLayer::Text(s),
        serde_json::Value::Array(items) => ValueLayer::Array(items),
        serde_json::Value::Object(map) => ValueLayer::Object(map.into_iter().collect()),
    }
}

/// Puts a `serde_json::Value` together. An object is collected with `Map::from_iter`, which
/// holds each of the distinct keys with its value.
#[verifier::external_body]
fn close_value(layer: ValueLayer) -> (r: serde_json::Value)
    requires
        distinct_keys(layer),
    ensures
        value_model(r) == layer_model(layer),
{
    match layer {
        ValueLayer::Null => serde_json::Value::Null,
        ValueLayer::Bool(b) => serde_json::Value::Bool(b),
        ValueLayer::Number(n) => serde_json::Value::Number(n),
        ValueLayer::Text(s) => serde_json::Value::String(s),
        ValueLayer::Array(items) => serde_json::Value::Array(items),
        ValueLayer::Object(pairs) => serde_json::Value::Object(pairs.into_iter().collect()),
    }
}

/// The model of the outcome of a reading.
pub open spec fn reading_model(reading: Result<serde_json::Value, String>) -> Result<
    JsonView,
    Seq<char>,
> {
    match reading {
        Ok(value) => Ok(value_model(value)),
        Err(message) => Err(message@),
    }
}

/// The model of a value that may be missing.
pub open spec fn value_option_model(value: Option<serde_json::Value>) -> Option<JsonView> {
    match value {
        Some(v) => Some(value_model(v)),
        None => None,
    }
}

/// The value that was read, if one was.
pub open spec fn value_read(reading: Result<JsonView, Seq<char>>) -> Option<JsonView> {
    match reading {
        Ok(value) => Some(value),
        Err(_) => None,
    }
}

/// The model of the outcome of a writing.
pub open spec fn writing_model(writing: Result<String, String>) -> Result<Seq<char>, Seq<char>> {
    match writing {
        Ok(text) => Ok(text@),
        Err(message) => Err(message@),
    }
}

/// Arrays and objects nest no deeper than `room` levels in the value.
pub open spec fn nests_within(value: JsonView, room: nat) -> bool
    decreases room,
{
    match value {
        JsonView::Array(items) => {
            &&& room > 0
            &&& forall|i: int|
                0 <= i < items.len() ==> nests_within(#[trigger] items[i], (room - 1) as nat)
        },
        JsonView::Object(object) => {
            &&& room > 0
            &&& forall|key: Seq<char>| #[trigger]
                object.contains_key(key) ==> nests_within(object[key], (room - 1) as nat)
        },
        _ => true,
    }
}

/// How deep arrays and objects may nest in a text that is read.
pub const NESTING_LIMIT: usize = 127;

/// How deep arrays and objects may nest in a text that is read.
pub open spec fn nesting_limit() -> nat {
    NESTING_LIMIT as nat
}

/// Calls `serde_json::from_str` for a `Value`, and names what comes back. A text that is a JSON
/// string holds the string between two quotation marks, and no character of the string is
/// written with less than one character. A JSON text is not empty, and starts with no control
/// character but those that JSON allows as white space. What JSON allows as white space at its ends
/// is white space to `str::trim` too, and the value itself neither starts nor ends with any: so a
/// text that is JSON is read as the same value when it is trimmed first. Arrays and objects nest no
/// deeper than `NESTING_LIMIT` levels: the reader's `remaining_depth` starts at 128, is one less at
/// each level, and must stay above 0.
#[verifier::external_body]
fn value_from_str(text: &str) -> (r: Result<serde_json::Value, String>)
    ensures
        reading_model(r) == parsed_text(text@),
        r matches Ok(value) ==> value_model(value) matches JsonView::Text(s) ==> s.len() + 2
            <= text@.len(),
        r is Ok ==> text@.len() > 0 && text@[0] as u32 != 0x1f,
        forall|whole: Seq<char>| #[trigger]
            crate::text::trimmed(whole) == text@ && parsed_text(whole) is Ok ==> reading_model(r)
                == parsed_text(whole),
        r matches Ok(value) ==> nests_within(value_model(value), nesting_limit()),
{
    match serde_json::from_str(text) {
        Ok(value) => Ok(value),
        Err(error) => Err(error.to_string()),
    }
}

/// What bytes hold as one JSON text: what their text is read as, if they are UTF-8.
pub open spec fn parsed_bytes(bytes: Seq<u8>) -> Option<JsonView> {
    if vstd::utf8::valid_utf8(bytes) {
        value_read(parsed_text(vstd::utf8::decode_utf8(bytes)))
    } else {
        None
    }
}

/// Calls `serde_json::from_slice` for a `Value`; the error is dropped. Bytes that are valid UTF-8
/// are read as `serde_json::from_str` reads their text. Other bytes are refused: strings and keys
/// are tested with `str::from_utf8`, and what stands around them is ASCII. Bytes that are read are
/// not empty, and arrays and objects nest no deeper than `NESTING_LIMIT` levels in them.
#[verifier::external_body]
fn value_from_slice(bytes: &[u8]) -> (r: Option<serde_json::Value>)
    ensures
        value_option_model(r) == parsed_bytes(bytes@),
        r is Some ==> bytes@.len() > 0,
        r matches Some(value) ==> nests_within(value_model(value), nesting_limit()),
{
    match serde_json::from_slice(bytes) {
        Ok(value) => Some(value),
        Err(_) => None,
    }
}

/// Calls `serde_json::Number::is_f64`, and names what comes back.
#[verifier::external_body]
fn number_is_float(number: &serde_json::Number) -> (r: bool)
    ensures
        r == is_float(*number),
{
    number.is_f64()
}

/// The text is read as the value.
pub open spec fn is_text_of(text: Seq<char>, value: JsonView) -> bool {
    parsed_text(text) matches Ok(v) && v == value
}

/// Every number of the value is an integer, or is read back from its own text.
pub open spec fn numbers_read_back(value: JsonView) -> bool
    decreases value,
{
    match value {
        JsonView::Number(n) => !is_float(n) || is_text_of(written_text(value), value),
        JsonView::Array(items) => forall|i: int|
            0 <= i < items.len() ==> numbers_read_back(#[trigger] items[i]),
        JsonView::Object(object) => forall|key: Seq<char>| #[trigger]
            object.contains_key(key) ==> numbers_read_back(object[key]),
        _ => true,
    }
}

/// The value nests no deeper than `room` levels, and every number of it is an integer or is read
/// back from its own text.
pub open spec fn reads_back(value: JsonView, room: nat) -> bool {
    nests_within(value, room) && numbers_read_back(value)
}

/// Every number of the value is an integer.
pub open spec fn float_free(value: JsonView) -> bool
    decreases value,
{
    match value {
        JsonView::Number(n) => !is_float(n),
        JsonView::Array(items) => forall|i: int|
            0 <= i < items.len() ==> float_free(#[trigger] items[i]),
        JsonView::Object(object) => forall|key: Seq<char>| #[trigger]
            object.contains_key(key) ==> float_free(object[key]),
        _ => true,
    }
}

/// Calls `serde_json::to_string` for a `Value`, and names what comes back. The call writes into
/// memory, and the keys of the objects are strings: neither fails. The text neither starts nor ends
/// with white space. It is read back as the value, where the value nests no deeper than the
/// reader accepts, and where its numbers are integers, which are written digit by digit, or are
/// read back from their own texts. That every floating-point number is read back is not said: the
/// reader rounds some decimals to a neighbour of the number that was written.
#[verifier::external_body]
fn value_to_string(value: &serde_json::Value) -> (r: Result<String, String>)
    ensures
        r is Ok,
        r->Ok_0@ == written_text(value_model(*value)),
        crate::text::trimmed(r->Ok_0@) == r->Ok_0@,
        reads_back(value_model(*value), nesting_limit()) ==> is_text_of(
            r->Ok_0@,
            value_model(*value),
        ),
{
    match serde_json::to_string(value) {
        Ok(text) => Ok(text),
        Err(error) => Err(error.to_string()),
    }
}

/// Calls `read_to_end` on a `flate2::read::GzDecoder` over `bytes`, and names what comes back; the
/// error is dropped. Bytes that do not start with the two bytes of a gzip stream are refused with
/// the header. The decoder stops behind the trailer of the first member: what may follow it is not
/// looked at.
#[verifier::external_body]
pub(crate) fn gunzip(bytes: &[u8]) -> (r: Option<Vec<u8>>)
    ensures
        match r {
            Some(content) => gunzipped(bytes@) == Some(content@),
            None => gunzipped(bytes@) is None,
        },
        r is Some ==> crate::payload::has_gzip_magic(bytes@),
        forall|more: Seq<u8>|
            r is Some ==> #[trigger] gunzipped(bytes@ + more) == gunzipped(bytes@),
{
    let mut decoder = flate2::read::GzDecoder::new(bytes);
    let mut content = Vec::new();
    match std::io::Read::read_to_end(&mut decoder, &mut content) {
        Ok(_) => Some(content),
        Err(_) => None,
    }
}

/// Calls `String::from_utf8_lossy`, and names what comes back. Bytes that are valid UTF-8 are
/// decoded as they stand. A first byte that is ASCII is decoded as its character, whatever follows.
#[verifier::external_body]
pub(crate) fn text_from_utf8_lossy(bytes: &[u8]) -> (r: String)
    ensures
        r@ == lossy_text(bytes@),
        vstd::utf8::valid_utf8(bytes@) ==> r@ == vstd::utf8::decode_utf8(bytes@),
        bytes@.len() > 0 && bytes@[0] < 0x80 ==> r@.len() > 0 && r@[0] as u32 == bytes@[0] as u32,
{
    String::from_utf8_lossy(bytes).into_owned()
}

/// The library's value for a value of `serde_json`.
fn json_from_value(value: serde_json::Value) -> (r: Json)
    ensures
        r@ == value_model(value),
    decreases value_model(value),
{
    match open_value(value) {
        ValueLayer::Null => Json::Null,
        ValueLayer::Bool(b) => Json::Bool(b),
        ValueLayer::Number(n) => Json::Number(n),
        ValueLayer::Text(s) => Json::Text(s),
        ValueLayer::Array(items) => {
            let ghost all = items@;
            let ghost views = value_model(value)->Array_0;
            let mut converted: Vec<Json> = Vec::new();
            for item in iter: items
                invariant
                    iter.seq() == all,
                    value_model(value) == JsonView::Array(views),
                    views == Seq::new(all.len(), |i: int| value_model(all[i])),
                    converted@.len() == iter.index(),
                    forall|j: int|
                        0 <= j < converted@.len() ==> (#[trigger] converted@[j])@ == views[j],
            {
                proof {
                    assert(value_model(item) == views[converted@.len() as int]);
                    assert(decreases_to!(value_model(value) => value_model(value)->Array_0));
                    assert(decreases_to!(views => views[converted@.len() as int]));
                }
                converted.push(json_from_value(item));
            }
            proof {
                crate::json::lemma_models(converted@);
                assert(crate::json::models(converted@) =~= views);
            }
            Json::Array(converted)
        },
        ValueLayer::Object(pairs) => {
            let ghost all = pairs@;
            let ghost map = pair_members(all);
            let mut object = JsonObject::new();
            proof {
                assert(all.take(0) =~= Seq::empty());
            }
            for pair in iter: pairs
                invariant
                    iter.seq() == all,
                    value_model(value) == JsonView::Object(map),
                    map == pair_members(all),
                    pair_keys(all).no_duplicates(),
                    object@ == pair_members(all.take(iter.index())),
            {
                let ghost i = iter.index();
                proof {
                    lemma_pair_member(all, i);
                    assert(all.take(i + 1).drop_last() =~= all.take(i));
                }
                let (key, inner) = pair;
                proof {
                    assert(map[key@] == value_model(inner));
                    assert(decreases_to!(value_model(value) => value_model(value)->Object_0));
                    assert(decreases_to!(map => map[key@]));
                }
                let converted = json_from_value(inner);
                object.insert(key, converted);
            }
            proof {
                assert(all.take(all.len() as int) =~= all);
            }
            Json::Object(object)
        },
    }
}

/// Where no key occurs twice, each pair is a member of the map.
proof fn lemma_pair_member(pairs: Seq<(String, serde_json::Value)>, i: int)
    requires
        pair_keys(pairs).no_duplicates(),
        0 <= i < pairs.len(),
    ensures
        pair_members(pairs).dom().finite(),
        pair_members(pairs).contains_key(pairs[i].0@),
        pair_members(pairs)[pairs[i].0@] == value_model(pairs[i].1),
    decreases pairs.len(),
{
    let rest = pairs.drop_last();
    let keys = pair_keys(pairs);
    lemma_pair_members_finite(rest);
    if i < rest.len() {
        assert forall|a: int, b: int| 0 <= a < rest.len() && 0 <= b < rest.len() && a != b implies
            pair_keys(rest)[a] != pair_keys(rest)[b] by {
            assert(keys[a] != keys[b]);
        }
        lemma_pair_member(rest, i);
        assert(keys[i] != keys[pairs.len() - 1]);
    }
}

/// The map has finitely many keys.
proof fn lemma_pair_members_finite(pairs: Seq<(String, serde_json::Value)>)
    ensures
        pair_members(pairs).dom().finite(),
    decreases pairs.len(),
{
    if pairs.len() > 0 {
        lemma_pair_members_finite(pairs.drop_last());
    }
}

/// The pairs of distinct keys that cover a map describe that map.
proof fn lemma_pairs_cover(pairs: Seq<(String, serde_json::Value)>, map: Map<Seq<char>, JsonView>)
    requires
        pair_keys(pairs).no_duplicates(),
        pair_keys(pairs).to_set() == map.dom(),
        forall|i: int|
            0 <= i < pairs.len() ==> map[(#[trigger] pairs[i]).0@] == value_model(pairs[i].1),
    ensures
        pair_members(pairs) == map,
{
    let keys = pair_keys(pairs);
    assert forall|k: Seq<char>| map.contains_key(k) implies pair_members(pairs).contains_key(k)
        && pair_members(pairs)[k] == map[k] by {
        assert(keys.to_set().contains(k));
        let i = choose|i: int| 0 <= i < keys.len() && keys[i] == k;
        lemma_pair_member(pairs, i);
        assert(pairs[i].0@ == k);
    }
    lemma_pair_members_keys(pairs);
    assert(pair_members(pairs) =~= map);
}

/// Every key of the map is the key of a pair.
proof fn lemma_pair_members_keys(pairs: Seq<(String, serde_json::Value)>)
    ensures
        forall|k: Seq<char>| #[trigger]
            pair_members(pairs).contains_key(k) ==> pair_keys(pairs).contains(k),
    decreases pairs.len(),
{
    if pairs.len() > 0 {
        let rest = pairs.drop_last();
        lemma_pair_members_keys(rest);
        assert forall|k: Seq<char>| #[trigger] pair_members(pairs).contains_key(k) implies pair_keys(
            pairs,
        ).contains(k) by {
            if k == pairs.last().0@ {
                assert(pair_keys(pairs)[pairs.len() - 1] == k);
            } else {
                assert(pair_members(rest).contains_key(k));
                let i = choose|i: int| 0 <= i < rest.len() && pair_keys(rest)[i] == k;
                assert(pair_keys(pairs)[i] == k);
            }
        }
    }
}

/// The value of `serde_json` for a value of the library.
pub fn value_from_json(json: &Json) -> (r: serde_json::Value)
    ensures
        value_model(r) == json@,
    decreases json@,
{
    let layer = match json {
        Json::Null => ValueLayer::Null,
        Json::Bool(b) => ValueLayer::Bool(*b),
        Json::Number(n) => ValueLayer::Number(n.clone()),
        Json::Text(s) => ValueLayer::Text(s.clone()),
        Json::Array(items) => {
            let ghost views = json@->Array_0;
            proof {
                crate::json::lemma_models(items@);
            }
            let mut converted: Vec<serde_json::Value> = Vec::new();
            let mut i: usize = 0;
            while i < items.len()
                invariant
                    i <= items@.len(),
                    json@ == JsonView::Array(views),
                    views == Seq::new(items@.len(), |j: int| items@[j]@),
                    converted@.len() == i,
                    forall|j: int| 0 <= j < i ==> value_model(#[trigger] converted@[j]) == views[j],
                decreases items@.len() - i,
            {
                proof {
                    assert(decreases_to!(json@ => json@->Array_0));
                    assert(decreases_to!(views => views[i as int]));
                }
                converted.push(value_from_json(&items[i]));
                i += 1;
            }
            assert(Seq::new(converted@.len(), |j: int| value_model(converted@[j])) =~= views);
            ValueLayer::Array(converted)
        },
        Json::Object(object) => {
            let ghost map = json@->Object_0;
            let ghost keys = crate::json::sorted_keys(map);
            let mut pairs: Vec<(String, serde_json::Value)> = Vec::new();
            let mut i: usize = 0;
            let n = object.len();
            while i < n
                invariant
                    i <= n,
                    n == keys.len(),
                    json@ == JsonView::Object(map),
                    object@ == map,
                    keys == crate::json::sorted_keys(map),
                    pairs@.len() == i,
                    forall|j: int| 0 <= j < i ==> (#[trigger] pairs@[j]).0@ == keys[j],
                    forall|j: int|
                        0 <= j < i ==> value_model((#[trigger] pairs@[j]).1) == map[keys[j]],
                decreases n - i,
            {
                let (key, value) = object.entry(i);
                proof {
                    assert(decreases_to!(json@ => json@->Object_0));
                    assert(decreases_to!(map => map[key@]));
                }
                pairs.push((key.clone(), value_from_json(value)));
                i += 1;
            }
            proof {
                assert(pair_keys(pairs@) =~= keys);
                crate::json::lemma_ascending_distinct(keys);
                lemma_pairs_cover(pairs@, map);
            }
            ValueLayer::Object(pairs)
        },
    };
    close_value(layer)
}

/// The model of the outcome of a reading.
pub open spec fn read_model(reading: Result<Json, String>) -> Result<JsonView, Seq<char>> {
    match reading {
        Ok(value) => Ok(value@),
        Err(message) => Err(message@),
    }
}

/// The model of a value that may be missing.
pub open spec fn option_model(value: Option<Json>) -> Option<JsonView> {
    match value {
        Some(v) => Some(v@),
        None => None,
    }
}

/// Reads a text as JSON. Gives the value, or the message of the error. A text that is JSON is read
/// as the same value when it is trimmed first.
pub fn read_text(text: &str) -> (r: Result<Json, String>)
    ensures
        read_model(r) == parsed_text(text@),
        r matches Ok(value) ==> value@ matches JsonView::Text(s) ==> s.len() + 2 <= text@.len(),
        r is Ok ==> text@.len() > 0 && text@[0] as u32 != 0x1f,
        forall|whole: Seq<char>| #[trigger]
            crate::text::trimmed(whole) == text@ && parsed_text(whole) is Ok ==> read_model(r)
                == parsed_text(whole),
        r matches Ok(value) ==> nests_within(value@, nesting_limit()),
{
    match value_from_str(text) {
        Ok(value) => Ok(json_from_value(value)),
        Err(message) => Err(message),
    }
}

/// Reads bytes as JSON. Bytes that are not UTF-8 are not JSON.
pub fn read_bytes(bytes: &[u8]) -> (r: Option<Json>)
    ensures
        option_model(r) == parsed_bytes(bytes@),
        r is Some ==> bytes@.len() > 0,
        r matches Some(value) ==> nests_within(value@, nesting_limit()),
{
    match value_from_slice(bytes) {
        Some(value) => Some(json_from_value(value)),
        None => None,
    }
}

/// Writes a value as compact JSON: the writer does not fail on a JSON value.
///
/// The text has no white space at its ends. It is read back as the value, where the value nests no
/// deeper than the reader accepts and its numbers are integers or are read back from their own
/// texts. As a token, the text of an object or an array then stands for that object or array.
pub fn write_text(value: &Json) -> (r: Result<String, String>)
    ensures
        r matches Ok(text) && text@ == written_text(value@),
        r matches Ok(text) ==> crate::text::trimmed(text@) == text@,
        r matches Ok(text) ==> reads_back(value@, nesting_limit()) ==> is_text_of(text@, value@),
        r matches Ok(text) ==> crate::payload::is_container(value@) && reads_back(
            value@,
            nesting_limit(),
        ) ==> crate::payload::token_data(
            crate::text::trimmed(text@),
            parsed_text(crate::text::trimmed(text@)),
        ) == value@,
{
    value_to_string(&value_from_json(value))
}

/// Whether an array nests within `room` levels below itself and holds no floating-point number.
fn are_float_free(items: &Vec<Json>, room: usize) -> (r: bool)
    ensures
        r == plain_within(JsonView::Array(crate::json::models(items@)), (room + 1) as nat),
    decreases room, 1nat,
{
    let ghost array = JsonView::Array(crate::json::models(items@));
    proof {
        crate::json::lemma_models(items@);
    }
    let mut i: usize = 0;
    while i < items.len()
        invariant
            i <= items@.len(),
            array == JsonView::Array(crate::json::models(items@)),
            array->Array_0 == Seq::new(items@.len(), |j: int| items@[j]@),
            forall|j: int| 0 <= j < i ==> plain_within(#[trigger] array->Array_0[j], room as nat),
        decreases items@.len() - i,
    {
        if !is_float_free(&items[i], room) {
            proof {
                let item = array->Array_0[i as int];
                if plain_within(array, (room + 1) as nat) {
                    assert(nests_within(item, room as nat));
                    assert(float_free(item));
                }
            }
            return false;
        }
        i += 1;
    }
    true
}

/// Whether an object nests within `room` levels below itself and holds no floating-point number.
fn has_float_free_members(object: &JsonObject, room: usize) -> (r: bool)
    ensures
        r == plain_within(JsonView::Object(object@), (room + 1) as nat),
    decreases room, 1nat,
{
    let ghost whole = JsonView::Object(object@);
    let ghost keys = crate::json::sorted_keys(object@);
    let mut i: usize = 0;
    let n = object.len();
    while i < n
        invariant
            i <= n,
            n == keys.len(),
            keys == crate::json::sorted_keys(object@),
            keys.to_set() == object@.dom(),
            whole == JsonView::Object(object@),
            forall|j: int|
                0 <= j < i ==> plain_within(object@[#[trigger] keys[j]], room as nat),
        decreases n - i,
    {
        let (key, value) = object.entry(i);
        if !is_float_free(value, room) {
            proof {
                if plain_within(whole, (room + 1) as nat) {
                    assert(whole->Object_0.contains_key(key@));
                    assert(nests_within(whole->Object_0[key@], room as nat));
                    assert(float_free(whole->Object_0[key@]));
                }
            }
            return false;
        }
        i += 1;
    }
    proof {
        assert forall|key: Seq<char>| #[trigger] object@.contains_key(key) implies plain_within(
            object@[key],
            room as nat,
        ) by {
            assert(keys.to_set().contains(key));
            let j = choose|j: int| 0 <= j < keys.len() && keys[j] == key;
            assert(plain_within(object@[keys[j]], room as nat));
        }
    }
    true
}

/// The value nests no deeper than `room` levels, and every number of it is an integer.
pub open spec fn plain_within(value: JsonView, room: nat) -> bool {
    nests_within(value, room) && float_free(value)
}

/// Whether a value nests no deeper than `room` levels and holds no floating-point number. Within
/// `NESTING_LIMIT` levels the text of such a value is read back as the value.
pub fn is_float_free(value: &Json, room: usize) -> (r: bool)
    ensures
        r == plain_within(value@, room as nat),
        r ==> reads_back(value@, room as nat),
    decreases room, 0nat,
{
    let r = match value {
        Json::Number(n) => !number_is_float(n),
        Json::Array(items) => room > 0 && are_float_free(items, room - 1),
        Json::Object(object) => room > 0 && has_float_free_members(object, room - 1),
        _ => true,
    };
    proof {
        if r {
            crate::laws::float_free_values_are_read_back(value@);
        }
    }
    r
}

} // verus!
