//! JSON values as the library's own type, and their mathematical model.

use vstd::prelude::*;

use crate::text::is_text_before;

verus! {

/// Carries a JSON number: whatever number `serde_json` has read.
#[verifier::external_type_specification]
#[verifier::external_body]
pub struct ExNumber(serde_json::Number);

/// `Number::clone`: a derived copy of the number, the same number again.
pub assume_specification[ <serde_json::Number as Clone>::clone ](
    number: &serde_json::Number,
) -> (r: serde_json::Number)
    ensures
        r == *number,
;

/// What a JSON value is.
#[verifier::ext_equal]
pub enum JsonView {
    Null,
    Bool(bool),
    Number(serde_json::Number),
    Text(Seq<char>),
    Array(Seq<JsonView>),
    Object(Map<Seq<char>, JsonView>),
}

/// A JSON value.
#[derive(Debug, PartialEq)]
pub enum Json {
    Null,
    Bool(bool),
    Number(serde_json::Number),
    Text(String),
    Array(Vec<Json>),
    Object(JsonObject),
}

/// The members of a JSON object, each key once, in the order of the keys.
#[derive(Debug, PartialEq)]
pub struct JsonObject {
    entries: Vec<(String, Json)>,
}

impl Json {
    /// The JSON value that this is.
    pub open spec fn model(self) -> JsonView
        decreases self,
    {
        match self {
            Json::Null => JsonView::Null,
            Json::Bool(b) => JsonView::Bool(b),
            Json::Number(n) => JsonView::Number(n),
            Json::Text(s) => JsonView::Text(s@),
            Json::Array(items) => JsonView::Array(models(items@)),
            Json::Object(o) => JsonView::Object(o.model()),
        }
    }
}

/// The models of a sequence of values.
pub open spec fn models(items: Seq<Json>) -> Seq<JsonView>
    decreases items,
{
    if items.len() == 0 {
        Seq::empty()
    } else {
        models(items.drop_last()).push(items.last().model())
    }
}

impl JsonObject {
    /// The members by their keys.
    pub closed spec fn model(self) -> Map<Seq<char>, JsonView>
        decreases self,
    {
        members(self.entries@)
    }
}

/// The map that a sequence of members describes.
spec fn members(entries: Seq<(String, Json)>) -> Map<Seq<char>, JsonView>
    decreases entries,
{
    if entries.len() == 0 {
        Map::empty()
    } else {
        members(entries.drop_last()).insert(entries.last().0@, entries.last().1.model())
    }
}

impl View for Json {
    type V = JsonView;

    open spec fn view(&self) -> JsonView {
        self.model()
    }
}

impl View for JsonObject {
    type V = Map<Seq<char>, JsonView>;

    open spec fn view(&self) -> Map<Seq<char>, JsonView> {
        self.model()
    }
}

/// The keys come in ascending order, each once.
pub open spec fn ascending(keys: Seq<Seq<char>>) -> bool {
    forall|i: int, j: int|
        0 <= i < j < keys.len() ==> crate::text::text_before(#[trigger] keys[i], #[trigger] keys[j])
}

/// The keys of an object in ascending order.
pub open spec fn sorted_keys(object: Map<Seq<char>, JsonView>) -> Seq<Seq<char>> {
    choose|keys: Seq<Seq<char>>| #[trigger] ascending(keys) && keys.to_set() == object.dom()
}

/// The keys of a sequence of members.
spec fn keys_of(entries: Seq<(String, Json)>) -> Seq<Seq<char>> {
    Seq::new(entries.len(), |i: int| entries[i].0@)
}

/// The model of each item stands at its place.
pub proof fn lemma_models(items: Seq<Json>)
    ensures
        models(items) == Seq::new(items.len(), |i: int| items[i].model()),
    decreases items.len(),
{
    if items.len() > 0 {
        lemma_models(items.drop_last());
    }
    assert(models(items) =~= Seq::new(items.len(), |i: int| items[i].model()));
}

/// The keys of `members` are the keys of the entries.
proof fn lemma_members_keys(entries: Seq<(String, Json)>)
    ensures
        members(entries).dom() == keys_of(entries).to_set(),
        members(entries).dom().finite(),
    decreases entries.len(),
{
    let keys = keys_of(entries);
    if entries.len() > 0 {
        let rest = entries.drop_last();
        lemma_members_keys(rest);
        assert(keys =~= keys_of(rest).push(entries.last().0@));
        assert(keys.to_set() =~= keys_of(rest).to_set().insert(entries.last().0@)) by {
            assert forall|k: Seq<char>| keys.contains(k) implies keys_of(rest).contains(k) || k
                == entries.last().0@ by {
                let i = choose|i: int| 0 <= i < keys.len() && keys[i] == k;
                if i < keys_of(rest).len() {
                    assert(keys_of(rest)[i] == k);
                }
            }
            assert forall|k: Seq<char>| keys_of(rest).contains(k) implies keys.contains(k) by {
                let i = choose|i: int| 0 <= i < keys_of(rest).len() && keys_of(rest)[i] == k;
                assert(keys[i] == k);
            }
            assert(keys[keys.len() - 1] == entries.last().0@);
        }
    } else {
        assert(keys.to_set() =~= Set::empty());
    }
}

/// Where no key occurs twice, each entry is a member of the map.
proof fn lemma_members_entry(entries: Seq<(String, Json)>, i: int)
    requires
        keys_of(entries).no_duplicates(),
        0 <= i < entries.len(),
    ensures
        members(entries).contains_key(entries[i].0@),
        members(entries)[entries[i].0@] == entries[i].1.model(),
    decreases entries.len(),
{
    let rest = entries.drop_last();
    let keys = keys_of(entries);
    if i < rest.len() {
        assert forall|a: int, b: int| 0 <= a < rest.len() && 0 <= b < rest.len() && a != b implies
            keys_of(rest)[a] != keys_of(rest)[b] by {
            assert(keys[a] != keys[b]);
        }
        lemma_members_entry(rest, i);
        assert(keys[i] != keys[entries.len() - 1]);
    }
}

/// Ascending keys are distinct.
pub proof fn lemma_ascending_distinct(keys: Seq<Seq<char>>)
    requires
        ascending(keys),
    ensures
        keys.no_duplicates(),
{
    assert forall|i: int, j: int| 0 <= i < keys.len() && 0 <= j < keys.len() && i != j implies
        keys[i] != keys[j] by {
        crate::text::text_before_irreflexive(keys[i]);
        if i < j {
            assert(crate::text::text_before(keys[i], keys[j]));
        } else {
            assert(crate::text::text_before(keys[j], keys[i]));
        }
    }
}

/// Two ascending sequences with the same keys are the same.
pub proof fn lemma_ascending_unique(a: Seq<Seq<char>>, b: Seq<Seq<char>>)
    requires
        ascending(a),
        ascending(b),
        a.to_set() == b.to_set(),
    ensures
        a == b,
    decreases a.len(),
{
    if a.len() == 0 {
        if b.len() > 0 {
            assert(b.to_set().contains(b[0]));
        }
        assert(a =~= b);
    } else {
        assert(a.to_set().contains(a.last()));
        let j = choose|j: int| 0 <= j < b.len() && b[j] == a.last();
        assert(b.to_set().contains(b.last()));
        let i = choose|i: int| 0 <= i < a.len() && a[i] == b.last();
        if j != b.len() - 1 {
            assert(crate::text::text_before(b[j], b[b.len() - 1]));
            if i != a.len() - 1 {
                assert(crate::text::text_before(a[i], a[a.len() - 1]));
                crate::text::text_before_transitive(a.last(), b.last(), a.last());
            }
            crate::text::text_before_irreflexive(a.last());
        }
        lemma_ascending_distinct(a);
        lemma_ascending_distinct(b);
        let c = a.drop_last();
        let d = b.drop_last();
        assert(c.to_set() =~= d.to_set()) by {
            assert forall|k: Seq<char>| c.contains(k) implies d.contains(k) by {
                let x = choose|x: int| 0 <= x < c.len() && c[x] == k;
                assert(a[x] == k);
                assert(a.to_set().contains(k));
                let y = choose|y: int| 0 <= y < b.len() && b[y] == k;
                assert(d[y] == k);
            }
            assert forall|k: Seq<char>| d.contains(k) implies c.contains(k) by {
                let x = choose|x: int| 0 <= x < d.len() && d[x] == k;
                assert(b[x] == k);
                assert(b.to_set().contains(k));
                let y = choose|y: int| 0 <= y < a.len() && a[y] == k;
                assert(c[y] == k);
            }
        }
        lemma_ascending_unique(c, d);
        assert(a =~= c.push(a.last()));
        assert(b =~= d.push(b.last()));
    }
}

/// The place of the entry under `key`.
fn position(entries: &Vec<(String, Json)>, key: &str) -> (r: Option<usize>)
    ensures
        match r {
            Some(i) => i < entries@.len() && entries@[i as int].0@ == key@,
            None => !keys_of(entries@).contains(key@),
        },
{
    let wanted = key.to_owned();
    let mut i: usize = 0;
    while i < entries.len()
        invariant
            i <= entries@.len(),
            wanted@ == key@,
            forall|j: int| 0 <= j < i ==> keys_of(entries@)[j] != key@,
        decreases entries@.len() - i,
    {
        if entries[i].0 == wanted {
            return Some(i);
        }
        i += 1;
    }
    None
}

impl JsonObject {
    /// The keys stand in ascending order.
    #[verifier::type_invariant]
    closed spec fn in_order(self) -> bool {
        ascending(keys_of(self.entries@))
    }

    /// An object without members.
    pub fn new() -> (r: JsonObject)
        ensures
            r@ == Map::<Seq<char>, JsonView>::empty(),
    {
        JsonObject { entries: Vec::new() }
    }

    /// The member under `key`.
    pub fn get(&self, key: &str) -> (r: Option<&Json>)
        ensures
            match r {
                Some(value) => self@.contains_key(key@) && self@[key@] == value@,
                None => !self@.contains_key(key@),
            },
    {
        proof {
            use_type_invariant(self);
            lemma_ascending_distinct(keys_of(self.entries@));
            lemma_members_keys(self.entries@);
        }
        match position(&self.entries, key) {
            Some(i) => {
                proof {
                    lemma_members_entry(self.entries@, i as int);
                }
                Some(&self.entries[i].1)
            },
            None => None,
        }
    }

    /// Puts `value` under `key`, in place of what stood there.
    pub fn insert(&mut self, key: String, value: Json)
        ensures
            final(self)@ == old(self)@.insert(key@, value@),
    {
        proof {
            use_type_invariant(&*self);
        }
        let mut entries: Vec<(String, Json)> = Vec::new();
        std::mem::swap(&mut entries, &mut self.entries);
        let ghost before = entries@;
        let ghost added = (key, value);
        proof {
            lemma_ascending_distinct(keys_of(before));
            lemma_members_keys(before);
        }
        let mut i: usize = entries.len();
        while i > 0 && is_text_before(key.as_str(), entries[i - 1].0.as_str())
            invariant
                i <= entries@.len(),
                entries@ == before,
                forall|j: int|
                    i <= j < before.len() ==> crate::text::text_before(
                        key@,
                        #[trigger] keys_of(before)[j],
                    ),
            decreases i,
        {
            i -= 1;
        }
        proof {
            if i > 0 && keys_of(before)[i - 1] != key@ {
                crate::text::text_before_total(keys_of(before)[i - 1], key@);
            }
        }
        if i > 0 && entries[i - 1].0 == key {
            entries[i - 1] = (key, value);
            proof {
                let after = entries@;
                assert(keys_of(after) =~= keys_of(before));
                lemma_members_keys(after);
                assert(members(after) =~= members(before).insert(added.0@, added.1@)) by {
                    lemma_members_entry(after, i - 1);
                    assert forall|k: Seq<char>| members(after).contains_key(k) && k != added.0@ implies
                        members(after)[k] == members(before)[k] by {
                        let j = choose|j: int| 0 <= j < after.len() && keys_of(after)[j] == k;
                        lemma_members_entry(after, j);
                        lemma_members_entry(before, j);
                    }
                }
            }
        } else {
            entries.insert(i, (key, value));
            proof {
                lemma_inserted(before, i as int, added);
            }
        }
        self.entries = entries;
    }

    /// Takes out the member under `key`.
    pub fn remove(&mut self, key: &str) -> (r: Option<Json>)
        ensures
            match r {
                Some(value) => {
                    &&& old(self)@.contains_key(key@)
                    &&& old(self)@[key@] == value@
                    &&& final(self)@ == old(self)@.remove(key@)
                },
                None => !old(self)@.contains_key(key@) && final(self)@ == old(self)@,
            },
    {
        proof {
            use_type_invariant(&*self);
        }
        let mut entries: Vec<(String, Json)> = Vec::new();
        std::mem::swap(&mut entries, &mut self.entries);
        let ghost before = entries@;
        proof {
            lemma_ascending_distinct(keys_of(before));
            lemma_members_keys(before);
        }
        let place = position(&entries, key);
        let mut found: Option<Json> = None;
        if let Some(i) = place {
            let (_, value) = entries.remove(i);
            found = Some(value);
            proof {
                lemma_removed(before, i as int);
            }
        }
        self.entries = entries;
        found
    }

    /// The number of members.
    pub fn len(&self) -> (r: usize)
        ensures
            r == self@.len(),
            r == sorted_keys(self@).len(),
            ascending(sorted_keys(self@)),
            sorted_keys(self@).to_set() == self@.dom(),
    {
        proof {
            use_type_invariant(self);
            lemma_sorted(self.entries@);
            lemma_members_keys(self.entries@);
            lemma_ascending_distinct(keys_of(self.entries@));
            keys_of(self.entries@).unique_seq_to_set();
        }
        self.entries.len()
    }

    /// The member at place `i` in the order of the keys.
    pub fn entry(&self, i: usize) -> (r: (&String, &Json))
        requires
            i < sorted_keys(self@).len(),
        ensures
            r.0@ == sorted_keys(self@)[i as int],
            self@.contains_key(r.0@),
            self@[r.0@] == r.1@,
            self@.dom().finite(),
    {
        proof {
            use_type_invariant(self);
            lemma_sorted(self.entries@);
            lemma_members_keys(self.entries@);
            lemma_ascending_distinct(keys_of(self.entries@));
            lemma_members_entry(self.entries@, i as int);
        }
        (&self.entries[i].0, &self.entries[i].1)
    }
}

/// The member of a value under `key`: only an object has members.
pub open spec fn member(value: JsonView, key: Seq<char>) -> Option<JsonView> {
    match value {
        JsonView::Object(object) => if object.contains_key(key) {
            Some(object[key])
        } else {
            None
        },
        _ => None,
    }
}

/// What the step `0` of a JSON pointer leads to: the first item of an array, or the member of an
/// object under the key `0`.
pub open spec fn child_zero(value: JsonView) -> Option<JsonView> {
    match value {
        JsonView::Array(items) => if items.len() > 0 {
            Some(items[0])
        } else {
            None
        },
        _ => member(value, "0"@),
    }
}

/// The text of a JSON string.
pub open spec fn text_of(value: JsonView) -> Option<Seq<char>> {
    match value {
        JsonView::Text(text) => Some(text),
        _ => None,
    }
}

/// The model of a borrowed value that may be missing.
pub open spec fn ref_model(value: Option<&Json>) -> Option<JsonView> {
    match value {
        Some(v) => Some(v@),
        None => None,
    }
}

impl Json {
    /// The member under `key`, if the value is an object that has it.
    pub fn get(&self, key: &str) -> (r: Option<&Json>)
        ensures
            ref_model(r) == member(self@, key@),
    {
        match self {
            Json::Object(object) => object.get(key),
            _ => None,
        }
    }

    /// The first item of an array, or the member of an object under the key `0`.
    pub fn get_zero(&self) -> (r: Option<&Json>)
        ensures
            ref_model(r) == child_zero(self@),
    {
        match self {
            Json::Array(items) => {
                proof {
                    lemma_models(items@);
                }
                if items.len() > 0 {
                    Some(&items[0])
                } else {
                    None
                }
            },
            _ => self.get("0"),
        }
    }

    /// The text of a JSON string.
    pub fn as_text(&self) -> (r: Option<&String>)
        ensures
            match r {
                Some(text) => text_of(self@) == Some(text@),
                None => text_of(self@) is None,
            },
    {
        match self {
            Json::Text(text) => Some(text),
            _ => None,
        }
    }
}

impl Clone for Json {
    fn clone(&self) -> (r: Json)
        ensures
            r@ == self@,
        decreases self,
    {
        match self {
            Json::Null => Json::Null,
            Json::Bool(b) => Json::Bool(*b),
            Json::Number(n) => Json::Number(n.clone()),
            Json::Text(s) => Json::Text(s.clone()),
            Json::Array(items) => {
                let mut copies: Vec<Json> = Vec::new();
                let mut i: usize = 0;
                while i < items.len()
                    invariant
                        i <= items@.len(),
                        copies@.len() == i,
                        forall|j: int| 0 <= j < i ==> (#[trigger] copies@[j])@ == items@[j]@,
                        decreases_to!(self => items@),
                    decreases items@.len() - i,
                {
                    copies.push(items[i].clone());
                    i += 1;
                }
                proof {
                    lemma_models(items@);
                    lemma_models(copies@);
                    assert(models(items@) =~= models(copies@));
                }
                Json::Array(copies)
            },
            Json::Object(object) => Json::Object(object.clone()),
        }
    }
}

impl Clone for JsonObject {
    fn clone(&self) -> (r: JsonObject)
        ensures
            r@ == self@,
        decreases self,
    {
        proof {
            use_type_invariant(self);
        }
        let mut entries: Vec<(String, Json)> = Vec::new();
        let mut i: usize = 0;
        while i < self.entries.len()
            invariant
                i <= self.entries@.len(),
                entries@.len() == i,
                forall|j: int| 0 <= j < i ==> (#[trigger] entries@[j]).0@ == self.entries@[j].0@,
                forall|j: int| 0 <= j < i ==> (#[trigger] entries@[j]).1@ == self.entries@[j].1@,
            decreases self.entries@.len() - i,
        {
            entries.push((self.entries[i].0.clone(), self.entries[i].1.clone()));
            i += 1;
        }
        proof {
            assert(keys_of(entries@) =~= keys_of(self.entries@));
            lemma_same_members(entries@, self.entries@);
        }
        JsonObject { entries }
    }
}

/// Entries with the same keys and models describe the same map.
proof fn lemma_same_members(a: Seq<(String, Json)>, b: Seq<(String, Json)>)
    requires
        a.len() == b.len(),
        forall|j: int| 0 <= j < a.len() ==> (#[trigger] a[j]).0@ == b[j].0@,
        forall|j: int| 0 <= j < a.len() ==> (#[trigger] a[j]).1.model() == b[j].1.model(),
    ensures
        members(a) == members(b),
    decreases a.len(),
{
    if a.len() > 0 {
        lemma_same_members(a.drop_last(), b.drop_last());
        assert(a[a.len() - 1].0@ == b[a.len() - 1].0@);
    }
}

/// The keys of ascending entries are the sorted keys of their map.
proof fn lemma_sorted(entries: Seq<(String, Json)>)
    requires
        ascending(keys_of(entries)),
    ensures
        sorted_keys(members(entries)) == keys_of(entries),
{
    lemma_members_keys(entries);
    lemma_ascending_unique(sorted_keys(members(entries)), keys_of(entries));
}

/// Without the entry at place `i` the map lacks that key and is otherwise the same.
proof fn lemma_removed(before: Seq<(String, Json)>, i: int)
    requires
        ascending(keys_of(before)),
        0 <= i < before.len(),
    ensures
        ascending(keys_of(before.remove(i))),
        members(before).contains_key(before[i].0@),
        members(before)[before[i].0@] == before[i].1.model(),
        members(before.remove(i)) == members(before).remove(before[i].0@),
{
    let after = before.remove(i);
    let old_keys = keys_of(before);
    let keys = keys_of(after);
    assert forall|a: int, b: int| 0 <= a < b < keys.len() implies crate::text::text_before(
        #[trigger] keys[a],
        #[trigger] keys[b],
    ) by {
        let x = if a < i { a } else { a + 1 };
        let y = if b < i { b } else { b + 1 };
        assert(crate::text::text_before(old_keys[x], old_keys[y]));
    }
    lemma_ascending_distinct(keys);
    lemma_ascending_distinct(old_keys);
    lemma_members_keys(after);
    lemma_members_keys(before);
    lemma_members_entry(before, i);
    assert forall|k: Seq<char>| keys.contains(k) implies old_keys.contains(k) && k != before[i].0@
        && members(after)[k] == members(before)[k] by {
        let j = choose|j: int| 0 <= j < keys.len() && keys[j] == k;
        let x = if j < i { j } else { j + 1 };
        assert(old_keys[x] == k);
        assert(old_keys[i] == before[i].0@);
        assert(after[j] == before[x]);
        lemma_members_entry(after, j);
        lemma_members_entry(before, x);
    }
    assert forall|k: Seq<char>| old_keys.contains(k) && k != before[i].0@ implies keys.contains(k) by {
        let j = choose|j: int| 0 <= j < old_keys.len() && old_keys[j] == k;
        let x = if j < i { j } else { j - 1 };
        assert(keys[x] == k);
    }
    assert(members(after) =~= members(before).remove(before[i].0@));
}

/// A new member that comes before all behind it, and behind all before it, is added to the map.
proof fn lemma_inserted(before: Seq<(String, Json)>, i: int, added: (String, Json))
    requires
        ascending(keys_of(before)),
        0 <= i <= before.len(),
        forall|j: int| i <= j < before.len() ==> crate::text::text_before(added.0@, #[trigger] keys_of(before)[j]),
        i == 0 || crate::text::text_before(keys_of(before)[i - 1], added.0@),
    ensures
        ascending(keys_of(before.insert(i, added))),
        members(before.insert(i, added)) == members(before).insert(added.0@, added.1.model()),
{
    let after = before.insert(i, added);
    let old_keys = keys_of(before);
    let keys = keys_of(after);
    assert forall|j: int| 0 <= j < i implies crate::text::text_before(#[trigger] old_keys[j], added.0@) by {
        if j < i - 1 {
            crate::text::text_before_transitive(old_keys[j], old_keys[i - 1], added.0@);
        }
    }
    assert(keys =~= old_keys.insert(i, added.0@));
    assert forall|a: int, b: int| 0 <= a < b < keys.len() implies crate::text::text_before(
        #[trigger] keys[a],
        #[trigger] keys[b],
    ) by {
        let x = if a < i { a } else { a - 1 };
        let y = if b < i { b } else { b - 1 };
        if a == i {
            assert(crate::text::text_before(added.0@, old_keys[y]));
        } else if b == i {
            assert(crate::text::text_before(old_keys[x], added.0@));
        } else {
            assert(crate::text::text_before(old_keys[x], old_keys[y]));
        }
    }
    lemma_ascending_distinct(keys);
    lemma_ascending_distinct(old_keys);
    lemma_members_keys(after);
    lemma_members_keys(before);
    assert(after[i] == added);
    lemma_members_entry(after, i);
    assert forall|k: Seq<char>| keys.contains(k) implies k == added.0@ || old_keys.contains(k) by {
        let j = choose|j: int| 0 <= j < keys.len() && keys[j] == k;
        if j < i {
            assert(old_keys[j] == k);
        } else if j > i {
            assert(old_keys[j - 1] == k);
        }
    }
    assert forall|k: Seq<char>| old_keys.contains(k) implies keys.contains(k) && members(after)[k]
        == members(before)[k] && k != added.0@ by {
        let j = choose|j: int| 0 <= j < old_keys.len() && old_keys[j] == k;
        let x = if j < i { j } else { j + 1 };
        assert(keys[x] == k);
        assert(after[x] == before[j]);
        lemma_members_entry(after, x);
        lemma_members_entry(before, j);
        assert(keys[i] == added.0@);
    }
    assert(keys[i] == added.0@);
    assert(members(after).dom() =~= members(before).dom().insert(added.0@));
    assert(members(after) =~= members(before).insert(added.0@, added.1.model()));
}

} // verus!
