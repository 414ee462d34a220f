//! JSON documents as plain data, read from bytes and written to text by
//! `serde_json`.

use crate::text::{decimal, same_text};
use vstd::prelude::*;

verus! {

/// A document of `serde_json`.
#[verifier::external_type_specification]
#[verifier::external_body]
pub struct ExValue(serde_json::Value);

/// A number of `serde_json`, integer or not.
#[verifier::external_type_specification]
#[verifier::external_body]
pub struct ExNumber(serde_json::Number);

/// The map of `serde_json` behind an object.
#[verifier::external_type_specification]
#[verifier::external_body]
#[verifier::reject_recursive_types(K)]
#[verifier::reject_recursive_types(V)]
pub struct ExMap<K, V>(serde_json::Map<K, V>);

/// A JSON document.
#[derive(Debug)]
pub enum Json {
    Null,
    Bool(bool),
    Number(serde_json::Number),
    Text(String),
    Array(Vec<Json>),
    Object(JsonObject),
}

/// An object of a document, its entries in the order of their keys.
#[derive(Debug)]
pub struct JsonObject {
    entries: Vec<(String, Json)>,
}

/// An object to fill, and to send as text.
#[derive(Debug)]
pub struct JsonMap {
    map: serde_json::Map<String, serde_json::Value>,
}

/// The model of a [`Json`] document. A number is its decimal text.
pub enum JsonView {
    Null,
    Bool(bool),
    Number(Seq<char>),
    Text(Seq<char>),
    Array(Seq<JsonView>),
    Object(Seq<(Seq<char>, JsonView)>),
}

/// The model of an object's entries.
pub type EntriesView = Seq<(Seq<char>, JsonView)>;

/// What a document of `serde_json` holds, objects with their entries in the
/// order in which the map is walked.
pub uninterp spec fn value_json(value: serde_json::Value) -> JsonView;

/// What a map of `serde_json` holds, in the order in which it is walked.
pub uninterp spec fn map_json(
    map: serde_json::Map<String, serde_json::Value>,
) -> Seq<(Seq<char>, JsonView)>;

/// The text of a number of `serde_json`, as its `Display` gives it.
pub uninterp spec fn number_text(number: serde_json::Number) -> Seq<char>;

/// What `serde_json::from_slice` reads from the bytes; nothing where they are
/// no JSON document.
pub uninterp spec fn parsed_json(data: Seq<u8>) -> Option<JsonView>;

/// The compact text of a document, as the `Display` of `serde_json::Value`
/// gives it.
pub uninterp spec fn json_text(document: JsonView) -> Seq<char>;

/// The model of a document.
pub open spec fn json_view(json: Json) -> JsonView
    decreases json,
{
    match json {
        Json::Null => JsonView::Null,
        Json::Bool(b) => JsonView::Bool(b),
        Json::Number(n) => JsonView::Number(number_text(n)),
        Json::Text(t) => JsonView::Text(t@),
        Json::Array(items) => JsonView::Array(
            Seq::new(
                items@.len(),
                |i: int|
                    if 0 <= i < items@.len() {
                        json_view(items@[i])
                    } else {
                        JsonView::Null
                    },
            ),
        ),
        Json::Object(object) => JsonView::Object(object_view(object)),
    }
}

/// The model of an object of a document.
pub closed spec fn object_view(object: JsonObject) -> EntriesView
    decreases object,
{
    let entries = object.entries;
    Seq::new(
        entries@.len(),
        |i: int|
            if 0 <= i < entries@.len() {
                (entries@[i].0@, json_view(entries@[i].1))
            } else {
                (seq![], JsonView::Null)
            },
    )
}

impl View for JsonObject {
    type V = EntriesView;

    open spec fn view(&self) -> EntriesView {
        object_view(*self)
    }
}

impl View for JsonMap {
    type V = EntriesView;

    closed spec fn view(&self) -> EntriesView {
        map_json(self.map)
    }
}

impl View for Json {
    type V = JsonView;

    open spec fn view(&self) -> JsonView {
        json_view(*self)
    }
}

/// The model of a sequence of entries.
pub open spec fn entries_view(entries: Seq<(String, Json)>) -> EntriesView {
    Seq::new(entries.len(), |i: int| (entries[i].0@, entries[i].1@))
}

/// The model of a sequence of documents.
pub open spec fn items_view(items: Seq<Json>) -> Seq<JsonView> {
    Seq::new(items.len(), |i: int| items[i]@)
}

/// The order of keys: that of their first differing characters, and a key
/// before its extensions.
pub open spec fn key_less(a: Seq<char>, b: Seq<char>) -> bool
    decreases b.len(),
{
    if b.len() == 0 {
        false
    } else if a.len() == 0 {
        true
    } else if a[0] == b[0] {
        key_less(a.skip(1), b.skip(1))
    } else {
        a[0] < b[0]
    }
}

/// Entries in the order of their keys, no key twice.
pub open spec fn in_key_order(entries: EntriesView) -> bool {
    forall|i: int, j: int|
        0 <= i < j < entries.len() ==> key_less((#[trigger] entries[i]).0, (#[trigger] entries[j]).0)
}

/// Every object of the document has its entries in the order of their keys.
pub open spec fn well_formed(document: JsonView) -> bool
    decreases document,
{
    match document {
        JsonView::Array(items) => forall|i: int|
            0 <= i < items.len() ==> well_formed(#[trigger] items[i]),
        JsonView::Object(entries) => {
            &&& in_key_order(entries)
            &&& forall|i: int| 0 <= i < entries.len() ==> well_formed((#[trigger] entries[i]).1)
        },
        _ => true,
    }
}

/// The value under the key.
pub open spec fn lookup(entries: EntriesView, key: Seq<char>) -> Option<JsonView>
    decreases entries.len(),
{
    if entries.len() == 0 {
        None
    } else if entries[0].0 == key {
        Some(entries[0].1)
    } else {
        lookup(entries.skip(1), key)
    }
}

/// The member of an object under the key; nothing of any other document.
pub open spec fn member(document: JsonView, key: Seq<char>) -> Option<JsonView> {
    match document {
        JsonView::Object(entries) => lookup(entries, key),
        _ => None,
    }
}

/// The member of an object under the key, if it is a text.
pub open spec fn member_text(document: JsonView, key: Seq<char>) -> Option<Seq<char>> {
    match member(document, key) {
        Some(JsonView::Text(text)) => Some(text),
        _ => None,
    }
}

/// The entries with `value` under `key`: in place of what was there, or at its
/// place in the order of keys.
pub open spec fn with_entry(entries: EntriesView, key: Seq<char>, value: JsonView) -> EntriesView
    decreases entries.len(),
{
    if entries.len() == 0 {
        seq![(key, value)]
    } else if entries[0].0 == key {
        seq![(key, value)] + entries.skip(1)
    } else if key_less(key, entries[0].0) {
        seq![(key, value)] + entries
    } else {
        seq![entries[0]] + with_entry(entries.skip(1), key, value)
    }
}

/// How many documents the document holds directly.
pub open spec fn child_count(document: JsonView) -> nat {
    match document {
        JsonView::Array(items) => items.len(),
        JsonView::Object(entries) => entries.len(),
        _ => 0,
    }
}

/// The document that the document holds directly at a position.
pub open spec fn child(document: JsonView, i: int) -> JsonView {
    match document {
        JsonView::Array(items) => items[i],
        JsonView::Object(entries) => entries[i].1,
        _ => JsonView::Null,
    }
}

/// What a document holds is smaller than the document.
pub proof fn lemma_child_is_smaller(document: JsonView, i: int)
    requires
        0 <= i < child_count(document),
    ensures
        decreases_to!(document => child(document, i)),
{
    match document {
        JsonView::Array(items) => {
            assert(decreases_to!(document => items));
            assert(decreases_to!(items => items[i]));
        },
        JsonView::Object(entries) => {
            assert(decreases_to!(document => entries));
            assert(decreases_to!(entries => entries[i]));
            assert(decreases_to!(entries[i] => entries[i].1));
        },
        _ => {},
    }
}

/// The first value under the key: an object's own member before what its
/// members hold, and what stands earlier before what stands later.
pub open spec fn first_value(document: JsonView, key: Seq<char>) -> Option<JsonView>
    decreases document, child_count(document) + 1,
{
    match member(document, key) {
        Some(value) => Some(value),
        None => first_value_from(document, 0, key),
    }
}

/// The first value under the key inside what the document holds from a
/// position on.
pub open spec fn first_value_from(document: JsonView, i: nat, key: Seq<char>) -> Option<JsonView>
    decreases document, child_count(document) - i,
{
    if i >= child_count(document) {
        None
    } else {
        proof {
            lemma_child_is_smaller(document, i as int);
        }
        match first_value(child(document, i as int), key) {
            Some(value) => Some(value),
            None => first_value_from(document, i + 1, key),
        }
    }
}

/// One level of a document of `serde_json`.
enum JsonNode {
    Null,
    Bool(bool),
    Number(serde_json::Number),
    Text(String),
    Array(Vec<serde_json::Value>),
    Object(Vec<(String, serde_json::Value)>),
}

spec fn values_view(items: Seq<serde_json::Value>) -> Seq<JsonView> {
    Seq::new(items.len(), |i: int| value_json(items[i]))
}

spec fn members_view(entries: Seq<(String, serde_json::Value)>) -> EntriesView {
    Seq::new(entries.len(), |i: int| (entries[i].0@, value_json(entries[i].1)))
}

spec fn node_view(node: JsonNode) -> JsonView {
    match node {
        JsonNode::Null => JsonView::Null,
        JsonNode::Bool(b) => JsonView::Bool(b),
        JsonNode::Number(n) => JsonView::Number(number_text(n)),
        JsonNode::Text(t) => JsonView::Text(t@),
        JsonNode::Array(items) => JsonView::Array(values_view(items@)),
        JsonNode::Object(entries) => JsonView::Object(members_view(entries@)),
    }
}

/// Calls `serde_json::from_slice` for a `Value`. Claimed: what it reads depends
/// on the bytes alone.
#[verifier::external_body]
fn parse_value(data: &[u8]) -> (r: Option<serde_json::Value>)
    ensures
        match r {
            Some(value) => parsed_json(data@) == Some(value_json(value)),
            None => parsed_json(data@) is None,
        },
{
    serde_json::from_slice(data).ok()
}

/// Tells the variants of `serde_json::Value` apart and moves out what each
/// holds. Claimed: that is the value's content, and the map behind an object,
/// a `BTreeMap` by default, is walked in the order of its keys, each of which
/// is there once. Texts are ordered by their UTF-8 bytes, which is the order of
/// their characters.
#[verifier::external_body]
fn open_value(value: serde_json::Value) -> (r: JsonNode)
    ensures
        node_view(r) == value_json(value),
        r matches JsonNode::Object(entries) ==> in_key_order(members_view(entries@)),
{
    match value {
        serde_json::Value::Null => JsonNode::Null,
        serde_json::Value::Bool(b) => JsonNode::Bool(b),
        serde_json::Value::Number(n) => JsonNode::Number(n),
        serde_json::Value::String(t) => JsonNode::Text(t),
        serde_json::Value::Array(items) => JsonNode::Array(items),
        serde_json::Value::Object(map) => JsonNode::Object(map.into_iter().collect()),
    }
}

/// Makes the `serde_json::Value` of the same variant. Claimed: it holds what it
/// was made from; entries in the order of their keys stay as they are when they
/// are collected into the map behind an object, a `BTreeMap` by default.
#[verifier::external_body]
fn close_node(node: JsonNode) -> (r: serde_json::Value)
    requires
        node matches JsonNode::Object(entries) ==> in_key_order(members_view(entries@)),
    ensures
        value_json(r) == node_view(node),
{
    match node {
        JsonNode::Null => serde_json::Value::Null,
        JsonNode::Bool(b) => serde_json::Value::Bool(b),
        JsonNode::Number(n) => serde_json::Value::Number(n),
        JsonNode::Text(t) => serde_json::Value::String(t),
        JsonNode::Array(items) => serde_json::Value::Array(items),
        JsonNode::Object(entries) => serde_json::Value::Object(entries.into_iter().collect()),
    }
}

/// Calls `to_string` of `serde_json::Value`. Claimed: the text depends on what
/// the value holds alone.
#[verifier::external_body]
fn render_value(value: &serde_json::Value) -> (r: String)
    ensures
        r@ == json_text(value_json(*value)),
{
    value.to_string()
}

/// Calls `serde_json::Map::new`. Claimed: the map is empty.
#[verifier::external_body]
fn empty_map() -> (r: serde_json::Map<String, serde_json::Value>)
    ensures
        map_json(r) == Seq::<(Seq<char>, JsonView)>::empty(),
{
    serde_json::Map::new()
}

/// Calls `serde_json::Map::insert`, and drops what was under the key. Claimed:
/// the value stands under the key, in place of what was there, or at the key's
/// place in the order of keys; the map is a `BTreeMap` by default. All else
/// stays.
#[verifier::external_body]
fn put(map: &mut serde_json::Map<String, serde_json::Value>, key: String, value: serde_json::Value)
    ensures
        map_json(*final(map)) == with_entry(map_json(*old(map)), key@, value_json(value)),
{
    map.insert(key, value);
}

/// Makes a `serde_json::Value` of a map. Claimed: it is the object that holds
/// what the map holds.
#[verifier::external_body]
fn map_value(map: serde_json::Map<String, serde_json::Value>) -> (r: serde_json::Value)
    ensures
        value_json(r) == JsonView::Object(map_json(map)),
{
    serde_json::Value::Object(map)
}

/// Calls `Number::from` for a `u64`. Claimed: the text of the number is its
/// decimal digits.
#[verifier::external_body]
fn integer(n: u64) -> (r: serde_json::Number)
    ensures
        number_text(r) == decimal(n as nat),
{
    serde_json::Number::from(n)
}

fn json_from_value(value: serde_json::Value) -> (r: Json)
    ensures
        r@ == value_json(value),
        well_formed(r@),
    decreases value_json(value),
{
    let ghost whole = value_json(value);
    match open_value(value) {
        JsonNode::Null => Json::Null,
        JsonNode::Bool(b) => Json::Bool(b),
        JsonNode::Number(n) => Json::Number(n),
        JsonNode::Text(t) => Json::Text(t),
        JsonNode::Array(items) => {
            let mut out: Vec<Json> = Vec::new();
            let ghost all = items@;
            for item in it: items
                invariant
                    it.seq() == all,
                    whole == JsonView::Array(values_view(all)),
                    whole == value_json(value),
                    items_view(out@) == values_view(all).take(it.index() as int),
                    forall|j: int| 0 <= j < out@.len() ==> well_formed(#[trigger] out@[j]@),
            {
                assert(whole->Array_0[it.index() as int] == value_json(item));
                assert(decreases_to!(whole => whole->Array_0));
                assert(decreases_to!(whole->Array_0 => whole->Array_0[it.index() as int]));
                let ghost before = out@;
                out.push(json_from_value(item));
                assert(items_view(out@) =~= items_view(before).push(value_json(item)));
                assert(values_view(all).take(it.index() + 1) =~= values_view(all).take(
                    it.index() as int,
                ).push(value_json(item)));
            }
            assert(values_view(all).take(all.len() as int) =~= values_view(all));
            let r = Json::Array(out);
            assert(r@->Array_0 =~= items_view(out@));
            r
        },
        JsonNode::Object(members) => {
            let mut out: Vec<(String, Json)> = Vec::new();
            let ghost all = members@;
            for member in it: members
                invariant
                    it.seq() == all,
                    whole == JsonView::Object(members_view(all)),
                    whole == value_json(value),
                    entries_view(out@) == members_view(all).take(it.index() as int),
                    forall|j: int| 0 <= j < out@.len() ==> well_formed(#[trigger] out@[j].1@),
            {
                let ghost i = it.index() as int;
                assert(whole->Object_0[i] == (member.0@, value_json(member.1)));
                assert(decreases_to!(whole => whole->Object_0));
                assert(decreases_to!(whole->Object_0 => whole->Object_0[i]));
                assert(decreases_to!(whole->Object_0[i] => whole->Object_0[i].1));
                let ghost before = out@;
                let ghost entry = members_view(all)[i];
                out.push((member.0, json_from_value(member.1)));
                assert(entries_view(out@) =~= entries_view(before).push(entry));
                assert(members_view(all).take(i + 1) =~= members_view(all).take(i).push(entry));
            }
            assert(members_view(all).take(all.len() as int) =~= members_view(all));
            assert(object_view(JsonObject { entries: out }) =~= entries_view(out@));
            Json::Object(JsonObject { entries: out })
        },
    }
}

fn value_from_json(json: Json) -> (r: serde_json::Value)
    ensures
        value_json(r) == json@,
    decreases json,
{
    let ghost whole = json;
    match json {
        Json::Null => close_node(JsonNode::Null),
        Json::Bool(b) => close_node(JsonNode::Bool(b)),
        Json::Number(n) => close_node(JsonNode::Number(n)),
        Json::Text(t) => close_node(JsonNode::Text(t)),
        Json::Array(items) => {
            let mut out: Vec<serde_json::Value> = Vec::new();
            let ghost all = items@;
            assert(whole@->Array_0 =~= items_view(all));
            for item in it: items
                invariant
                    it.seq() == all,
                    whole == json,
                    whole == Json::Array(items),
                    all == items@,
                    whole@ == JsonView::Array(items_view(all)),
                    values_view(out@) == items_view(all).take(it.index() as int),
            {
                let ghost i = it.index() as int;
                assert(item == all[i]);
                assert(decreases_to!(whole => items));
                assert(decreases_to!(items => items@));
                assert(decreases_to!(items@ => items@[i]));
                assert(items_view(all)[i] == item@);
                let ghost before = out@;
                out.push(value_from_json(item));
                assert(values_view(out@) =~= values_view(before).push(items_view(all)[i]));
                assert(items_view(all).take(i + 1) =~= items_view(all).take(i).push(
                    items_view(all)[i],
                ));
            }
            assert(items_view(all).take(all.len() as int) =~= items_view(all));
            close_node(JsonNode::Array(out))
        },
        Json::Object(object) => {
            proof {
                use_type_invariant(&object);
            }
            let mut out: Vec<(String, serde_json::Value)> = Vec::new();
            let ghost held = object;
            let entries: Vec<(String, Json)> = object.entries;
            let ghost all = entries@;
            assert(whole@->Object_0 =~= entries_view(all));
            for entry in it: entries
                invariant
                    it.seq() == all,
                    whole == json,
                    whole == Json::Object(held),
                    held.entries == entries,
                    all == entries@,
                    whole@ == JsonView::Object(entries_view(all)),
                    members_view(out@) == entries_view(all).take(it.index() as int),
            {
                let ghost i = it.index() as int;
                assert(entry == all[i]);
                assert(decreases_to!(whole => held));
                assert(decreases_to!(held => held.entries));
                assert(decreases_to!(entries => entries@));
                assert(decreases_to!(entries@ => entries@[i]));
                assert(decreases_to!(entries@[i] => entries@[i].1));
                let ghost before = out@;
                out.push((entry.0, value_from_json(entry.1)));
                assert(members_view(out@) =~= members_view(before).push(entries_view(all)[i]));
                assert(entries_view(all).take(i + 1) =~= entries_view(all).take(i).push(
                    entries_view(all)[i],
                ));
            }
            assert(entries_view(all).take(all.len() as int) =~= entries_view(all));
            close_node(JsonNode::Object(out))
        },
    }
}

/// A JSON number from an integer.
pub fn integer_json(n: u64) -> (r: Json)
    ensures
        r@ == JsonView::Number(decimal(n as nat)),
{
    Json::Number(integer(n))
}

impl Json {
    /// Reads a document from its bytes.
    pub fn parse(data: &[u8]) -> (r: Option<Json>)
        ensures
            match r {
                Some(document) => parsed_json(data@) == Some(document@) && well_formed(document@),
                None => parsed_json(data@) is None,
            },
    {
        match parse_value(data) {
            Some(value) => Some(json_from_value(value)),
            None => None,
        }
    }

    /// The member of an object under the key.
    pub fn get<'a>(&'a self, key: &str) -> (r: Option<&'a Json>)
        ensures
            match r {
                Some(value) => member(self@, key@) == Some(value@),
                None => member(self@, key@) is None,
            },
    {
        match self {
            Json::Object(object) => object.get(key),
            _ => None,
        }
    }

    /// The text, if the document is one.
    pub fn as_str<'a>(&'a self) -> (r: Option<&'a str>)
        ensures
            match r {
                Some(text) => self@ == JsonView::Text(text@),
                None => !(self@ is Text),
            },
    {
        match self {
            Json::Text(text) => Some(text.as_str()),
            _ => None,
        }
    }

    /// The truth value, if the document is one.
    pub fn as_bool(&self) -> (r: Option<bool>)
        ensures
            match r {
                Some(b) => self@ == JsonView::Bool(b),
                None => !(self@ is Bool),
            },
    {
        match self {
            Json::Bool(b) => Some(*b),
            _ => None,
        }
    }
}

impl JsonObject {
    #[verifier::type_invariant]
    spec fn valid(self) -> bool {
        in_key_order(self@)
    }

    /// The entries, in the order of their keys.
    pub fn entries(&self) -> (r: &Vec<(String, Json)>)
        ensures
            entries_view(r@) == self@,
            in_key_order(self@),
    {
        proof {
            use_type_invariant(self);
        }
        assert(entries_view(self.entries@) =~= self@);
        &self.entries
    }

    /// The entries, in the order of their keys.
    pub fn into_entries(self) -> (r: Vec<(String, Json)>)
        ensures
            entries_view(r@) == self@,
            in_key_order(self@),
    {
        proof {
            use_type_invariant(&self);
        }
        assert(entries_view(self.entries@) =~= self@);
        self.entries
    }

    /// The value under the key.
    pub fn get<'a>(&'a self, key: &str) -> (r: Option<&'a Json>)
        ensures
            match r {
                Some(value) => lookup(self@, key@) == Some(value@),
                None => lookup(self@, key@) is None,
            },
    {
        let entries: &'a Vec<(String, Json)> = &self.entries;
        let ghost all = self@;
        assert(entries_view(entries@) =~= all);
        let mut i: usize = 0;
        assert(all.skip(0) =~= all);
        while i < entries.len()
            invariant
                all == self@,
                all == entries_view(entries@),
                i <= entries@.len(),
                lookup(all, key@) == lookup(all.skip(i as int), key@),
            decreases entries@.len() - i,
        {
            if same_text(entries[i].0.as_str(), key) {
                return Some(&entries[i].1);
            }
            assert(all.skip(i as int).skip(1) =~= all.skip(i + 1));
            i += 1;
        }
        None
    }
}

impl JsonMap {
    /// An object without entries.
    pub fn new() -> (r: JsonMap)
        ensures
            r@ == Seq::<(Seq<char>, JsonView)>::empty(),
    {
        JsonMap { map: empty_map() }
    }

    /// Puts the value under the key, in place of what was there.
    pub fn insert(&mut self, key: String, value: Json)
        ensures
            final(self)@ == with_entry(old(self)@, key@, value@),
    {
        put(&mut self.map, key, value_from_json(value));
    }

    /// Puts the object under the key, in place of what was there.
    pub fn insert_object(&mut self, key: String, object: JsonMap)
        ensures
            final(self)@ == with_entry(old(self)@, key@, JsonView::Object(object@)),
    {
        put(&mut self.map, key, map_value(object.map));
    }

    /// The document that holds the object.
    pub fn into_json(self) -> (r: Json)
        ensures
            r@ == JsonView::Object(self@),
            well_formed(r@),
    {
        json_from_value(map_value(self.map))
    }

    /// The compact text of the object.
    pub fn into_text(self) -> (r: String)
        ensures
            r@ == json_text(JsonView::Object(self@)),
    {
        render_value(&map_value(self.map))
    }
}

/// The first value under the key anywhere in the document, its own members
/// first.
pub fn find_first_value_for_key<'a>(value: &'a Json, key: &str) -> (r: Option<&'a Json>)
    ensures
        match r {
            Some(found) => first_value(value@, key@) == Some(found@),
            None => first_value(value@, key@) is None,
        },
    decreases value,
{
    match value {
        Json::Object(object) => {
            if let Some(found) = object.get(key) {
                return Some(found);
            }
            let entries: &'a Vec<(String, Json)> = &object.entries;
            assert(value@->Object_0 =~= entries_view(entries@));
            let mut i: usize = 0;
            while i < entries.len()
                invariant
                    *value == Json::Object(*object),
                    object.entries == *entries,
                    value@ == JsonView::Object(entries_view(entries@)),
                    i <= entries@.len(),
                    first_value(value@, key@) == first_value_from(value@, i as nat, key@),
                decreases entries@.len() - i,
            {
                assert(child(value@, i as int) == entries@[i as int].1@);
                assert(decreases_to!(*value => *object));
                assert(decreases_to!(*object => object.entries));
                assert(decreases_to!(*entries => entries@));
                assert(decreases_to!(entries@ => entries@[i as int]));
                assert(decreases_to!(entries@[i as int] => entries@[i as int].1));
                if let Some(found) = find_first_value_for_key(&entries[i].1, key) {
                    return Some(found);
                }
                i += 1;
            }
            None
        },
        Json::Array(items) => {
            assert(value@->Array_0 =~= items_view(items@));
            let mut i: usize = 0;
            while i < items.len()
                invariant
                    *value == Json::Array(*items),
                    value@ == JsonView::Array(items_view(items@)),
                    i <= items@.len(),
                    first_value(value@, key@) == first_value_from(value@, i as nat, key@),
                decreases items@.len() - i,
            {
                assert(child(value@, i as int) == items@[i as int]@);
                assert(decreases_to!(*value => *items));
                assert(decreases_to!(*items => items@));
                assert(decreases_to!(items@ => items@[i as int]));
                if let Some(found) = find_first_value_for_key(&items[i], key) {
                    return Some(found);
                }
                i += 1;
            }
            None
        },
        _ => {
            assert(child_count(value@) == 0);
            None
        },
    }
}

} // verus!
