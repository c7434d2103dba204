//! JSON values, as `serde_json` holds them.
//!
//! Contracts speak of a value through [`JsonView`], which says what it holds.

use vstd::prelude::*;

use crate::text;

use serde_json::{Map as JsonMap, Value};

verus! {

/// `serde_json::Value`: its contents are named by [`json_view`].
#[verifier::external_type_specification]
#[verifier::external_body]
pub struct ExValue(serde_json::Value);

/// `serde_json::Map`: its contents are named by [`json_entries`].
#[verifier::external_type_specification]
#[verifier::external_body]
#[verifier::reject_recursive_types(K)]
#[verifier::reject_recursive_types(V)]
pub struct ExJsonMap<K, V>(serde_json::Map<K, V>);

/// What a JSON value holds.
pub enum JsonView {
    Null,
    Bool(bool),
    /// A number: its value, where that is a 64-bit signed integer, and its notation.
    Number(Option<i64>, Seq<char>),
    Text(Seq<char>),
    Array(Seq<JsonView>),
    /// The entries in ascending order of their keys, each key once.
    Object(Seq<(Seq<char>, JsonView)>),
}

/// What a `serde_json::Value` holds.
pub uninterp spec fn json_view(value: serde_json::Value) -> JsonView;

/// The entries of a `serde_json::Map`, in the order in which it hands them out.
pub uninterp spec fn json_entries(map: serde_json::Map<String, serde_json::Value>) -> Seq<
    (Seq<char>, JsonView),
>;

/// What the JSON text `text` stands for; `None` where it is no JSON text.
pub uninterp spec fn json_parse(text: Seq<char>) -> Option<JsonView>;

/// What the bytes of a JSON text stand for; `None` where they are no JSON text.
pub uninterp spec fn json_parse_bytes(bytes: Seq<u8>) -> Option<JsonView>;

/// The compact JSON text of a value.
pub uninterp spec fn json_text(value: JsonView) -> Seq<char>;

/// `Value::clone`: a value that holds the same.
pub assume_specification[ <serde_json::Value as Clone>::clone ](held: &serde_json::Value) -> (twin:
    serde_json::Value)
    ensures
        json_view(twin) == json_view(*held),
;

/// What each of several values holds.
pub open spec fn json_views(values: Seq<serde_json::Value>) -> Seq<JsonView> {
    Seq::new(values.len(), |i: int| json_view(values[i]))
}

/// The value under `key`.
pub open spec fn json_lookup(entries: Seq<(Seq<char>, JsonView)>, key: Seq<char>) -> Option<JsonView>
    decreases entries.len(),
{
    if entries.len() == 0 {
        None
    } else if entries[0].0 == key {
        Some(entries[0].1)
    } else {
        json_lookup(entries.skip(1), key)
    }
}

/// The value under `key`, where `value` is an object that has one.
pub open spec fn json_member(value: JsonView, key: Seq<char>) -> Option<JsonView> {
    match value {
        JsonView::Object(entries) => json_lookup(entries, key),
        _ => None,
    }
}

/// The entries with `value` under `key`: in place of the value that was there, or else
/// at its place in the order of the keys.
pub open spec fn json_insert(
    entries: Seq<(Seq<char>, JsonView)>,
    key: Seq<char>,
    value: JsonView,
) -> Seq<(Seq<char>, JsonView)>
    decreases entries.len(),
{
    if entries.len() == 0 {
        seq![(key, value)]
    } else if entries[0].0 == key {
        seq![(key, value)] + entries.skip(1)
    } else if text::text_before(key, entries[0].0) {
        seq![(key, value)] + entries
    } else {
        seq![entries[0]] + json_insert(entries.skip(1), key, value)
    }
}

/// `serde_json::from_str`, for a `Value`: the value that the text stands for, and none
/// where it is not JSON.
#[verifier::external_body]
pub(crate) fn parse_text(text: &str) -> (value: Option<Value>)
    ensures
        match value {
            Some(value) => json_parse(text@) == Some(json_view(value)),
            None => json_parse(text@) is None,
        },
{
    serde_json::from_str(text).ok()
}

/// `serde_json::from_slice`, for a `Value`: the value that the bytes stand for, and none
/// where they are not JSON.
#[verifier::external_body]
pub(crate) fn parse_bytes(bytes: &[u8]) -> (value: Option<Value>)
    ensures
        match value {
            Some(value) => json_parse_bytes(bytes@) == Some(json_view(value)),
            None => json_parse_bytes(bytes@) is None,
        },
{
    serde_json::from_slice(bytes).ok()
}

/// `null`, a truth value, or a number that is a 64-bit signed integer.
pub open spec fn is_scalar(value: JsonView) -> bool {
    match value {
        JsonView::Null => true,
        JsonView::Bool(_) => true,
        JsonView::Number(n, _) => n is Some,
        _ => false,
    }
}

/// A text of small letters, digits and minus signs.
pub open spec fn is_bare(text: Seq<char>) -> bool {
    forall|i: int|
        0 <= i < text.len() ==> {
            ||| 'a' <= #[trigger] text[i] <= 'z'
            ||| '0' <= text[i] <= '9'
            ||| text[i] == '-'
        }
}

/// What is written for a scalar is a bare text, and read as that scalar.
pub open spec fn is_read_back(value: JsonView) -> bool {
    is_scalar(value) ==> {
        &&& json_parse(json_text(value)) == Some(value)
        &&& is_bare(json_text(value))
    }
}

/// `Value::to_string`: the compact JSON text of the value. That of `null`, of a truth value
/// and of an integer is a word or a number in digits, which `serde_json::from_str` reads as
/// the value it was written for.
#[verifier::external_body]
pub(crate) fn text_of(value: &Value) -> (text: String)
    ensures
        text@ == json_text(json_view(*value)),
        is_scalar(json_view(*value)) ==> json_parse(text@) == Some(json_view(*value)) && is_bare(
            text@,
        ),
{
    value.to_string()
}

/// `Value::as_str`: the text, where the value is one.
#[verifier::external_body]
pub(crate) fn as_text(value: &Value) -> (text: Option<&str>)
    ensures
        match text {
            Some(text) => json_view(*value) == JsonView::Text(text@),
            None => json_view(*value) !is Text,
        },
{
    value.as_str()
}

/// `Value::as_i64`: the number, where the value is one that fits.
#[verifier::external_body]
pub(crate) fn as_integer(value: &Value) -> (number: Option<i64>)
    ensures
        number == (match json_view(*value) {
            JsonView::Number(number, _) => number,
            _ => None,
        }),
{
    value.as_i64()
}

/// `Value::as_bool`: the truth value, where the value is one.
#[verifier::external_body]
pub(crate) fn as_bool(value: &Value) -> (truth: Option<bool>)
    ensures
        truth == (match json_view(*value) {
            JsonView::Bool(truth) => Some(truth),
            _ => None,
        }),
{
    value.as_bool()
}

/// `Value::is_null`: whether the value is null.
#[verifier::external_body]
pub(crate) fn is_null(value: &Value) -> (answer: bool)
    ensures
        answer == (json_view(*value) is Null),
{
    value.is_null()
}

/// `Value::as_array`: the elements, where the value is an array.
#[verifier::external_body]
pub(crate) fn as_array(value: &Value) -> (elements: Option<&Vec<Value>>)
    ensures
        match elements {
            Some(elements) => json_view(*value) == JsonView::Array(json_views(elements@)),
            None => json_view(*value) !is Array,
        },
{
    value.as_array()
}

/// `Value::as_object`: the map of the entries, where the value is an object.
#[verifier::external_body]
pub(crate) fn as_object(value: &Value) -> (map: Option<&JsonMap<String, Value>>)
    ensures
        match map {
            Some(map) => json_view(*value) == JsonView::Object(json_entries(*map)),
            None => json_view(*value) !is Object,
        },
{
    value.as_object()
}

/// `Value::get` with a string: the value under this key, where the value is an object
/// that has one.
#[verifier::external_body]
pub(crate) fn member<'a>(value: &'a Value, key: &str) -> (found: Option<&'a Value>)
    ensures
        match found {
            Some(found) => json_member(json_view(*value), key@) == Some(json_view(*found)),
            None => json_member(json_view(*value), key@) is None,
        },
{
    value.get(key)
}

/// `Map::iter`: every entry, in the order of the map.
#[verifier::external_body]
pub(crate) fn entries(map: &JsonMap<String, Value>) -> (out: Vec<(&String, &Value)>)
    ensures
        out@.len() == json_entries(*map).len(),
        forall|i: int|
            0 <= i < out@.len() ==> {
                &&& (#[trigger] out@[i]).0@ == json_entries(*map)[i].0
                &&& json_view(*out@[i].1) == json_entries(*map)[i].1
            },
{
    map.iter().collect()
}

/// `Map::new`: a map without entries.
#[verifier::external_body]
pub(crate) fn new_map() -> (map: JsonMap<String, Value>)
    ensures
        json_entries(map) == Seq::<(Seq<char>, JsonView)>::empty(),
{
    JsonMap::new()
}

/// `Map::insert`: puts the value under the key.
#[verifier::external_body]
pub(crate) fn insert(map: &mut JsonMap<String, Value>, key: String, value: Value)
    ensures
        json_entries(*final(map)) == json_insert(json_entries(*old(map)), key@, json_view(value)),
{
    map.insert(key, value);
}

/// `Value::Object`: the object with the entries of the map.
#[verifier::external_body]
pub(crate) fn object(map: JsonMap<String, Value>) -> (value: Value)
    ensures
        json_view(value) == JsonView::Object(json_entries(map)),
{
    Value::Object(map)
}

/// `Value::String`: the text as a value.
#[verifier::external_body]
pub(crate) fn string(text: String) -> (value: Value)
    ensures
        json_view(value) == JsonView::Text(text@),
{
    Value::String(text)
}

} // verus!
