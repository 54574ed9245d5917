//! The calls into `serde_json` that the library makes, and the names of
//! what they return.

use serde_json::Error as JsonError;
use vstd::prelude::*;

verus! {

/// A JSON value of `serde_json`.
#[verifier::external_type_specification]
#[verifier::external_body]
pub struct ExJsonValue(serde_json::Value);

/// The error of `serde_json`.
#[verifier::external_type_specification]
#[verifier::external_body]
pub struct ExJsonError(JsonError);

/// A JSON object map of `serde_json`; with the `preserve_order` feature it
/// keeps its entries in insertion order.
#[verifier::external_type_specification]
#[verifier::external_body]
#[verifier::reject_recursive_types(K)]
#[verifier::reject_recursive_types(V)]
pub struct ExJsonMap<K, V>(serde_json::Map<K, V>);

/// The entries of a map, in their order: each key once, with its value.
pub uninterp spec fn json_map_entries(map: serde_json::Map<String, serde_json::Value>) -> Seq<(Seq<char>, serde_json::Value)>;

/// The object value `Value::Object` makes of a map with these entries.
pub uninterp spec fn json_object(entries: Seq<(Seq<char>, serde_json::Value)>) -> serde_json::Value;

/// The array value `Value::Array` makes of these elements.
pub uninterp spec fn json_array(elements: Seq<serde_json::Value>) -> serde_json::Value;

/// What `Map::insert` makes of entries `e` (with the `preserve_order`
/// feature): a key already there keeps its place and takes the new value,
/// a new key goes last.
pub open spec fn entries_insert(
    e: Seq<(Seq<char>, serde_json::Value)>,
    k: Seq<char>,
    v: serde_json::Value,
) -> Seq<(Seq<char>, serde_json::Value)> {
    if exists|i: int| 0 <= i < e.len() && (#[trigger] e[i]).0 == k {
        e.map_values(|p: (Seq<char>, serde_json::Value)| if p.0 == k { (k, v) } else { p })
    } else {
        e.push((k, v))
    }
}

/// `Map::new`: a map with no entries.
#[verifier::external_body]
pub(crate) fn map_new() -> (r: serde_json::Map<String, serde_json::Value>)
    ensures
        json_map_entries(r) == Seq::<(Seq<char>, serde_json::Value)>::empty(),
{
    serde_json::Map::new()
}

/// `Map::insert` (with `preserve_order`, backed by `IndexMap::insert`): an
/// existing key keeps its place and takes the new value; a new key is
/// added last.
#[verifier::external_body]
pub(crate) fn map_insert(map: &mut serde_json::Map<String, serde_json::Value>, key: String, value: serde_json::Value)
    ensures
        json_map_entries(*final(map)) == entries_insert(json_map_entries(*old(map)), key@, value),
{
    map.insert(key, value);
}

/// `Value::Object`: the object value of a map.
#[verifier::external_body]
pub(crate) fn object_value(map: serde_json::Map<String, serde_json::Value>) -> (r: serde_json::Value)
    ensures
        r == json_object(json_map_entries(map)),
{
    serde_json::Value::Object(map)
}

/// `Value::Array`: the array value of a vector of values.
#[verifier::external_body]
pub(crate) fn array_value(elements: Vec<serde_json::Value>) -> (r: serde_json::Value)
    ensures
        r == json_array(elements@),
{
    serde_json::Value::Array(elements)
}

/// `Value::clone`: a copy equal to the original.
pub assume_specification[ <serde_json::Value as Clone>::clone ](v: &serde_json::Value) -> (r: serde_json::Value)
    ensures
        r == *v,
;

/// What `serde_json::from_slice::<Value>` reads from `bytes`, if they are
/// one JSON text.
pub uninterp spec fn json_parse(bytes: Seq<u8>) -> Option<serde_json::Value>;

/// What `Value::get` finds under `key` in `value` (a member of an object).
pub uninterp spec fn json_member(value: serde_json::Value, key: Seq<char>) -> Option<serde_json::Value>;

/// What `Value::as_str` gives for `value`: its text when it is a string.
pub uninterp spec fn json_as_text(value: serde_json::Value) -> Option<Seq<char>>;

/// What `Value`'s `Display` writes: compact JSON text.
pub uninterp spec fn json_display(value: serde_json::Value) -> Seq<char>;

/// The JSON string value that `Value::from(&str)` makes of `text`.
pub uninterp spec fn json_string(text: Seq<char>) -> serde_json::Value;

/// What `serde_json::to_vec` writes for `value`: its compact JSON text.
pub uninterp spec fn json_bytes(value: serde_json::Value) -> Seq<u8>;

/// What `serde_json::Error`'s `Display` writes.
pub uninterp spec fn json_error_display(error: JsonError) -> Seq<char>;

/// `serde_json::from_slice::<Value>(bytes).ok()`: the value of `bytes`,
/// `None` when they are not one JSON text.
#[verifier::external_body]
pub(crate) fn parse_value(bytes: &[u8]) -> (r: Option<serde_json::Value>)
    ensures
        r == json_parse(bytes@),
{
    serde_json::from_slice(bytes).ok()
}

/// `Value::get` with a string key: the member `key` of an object value.
#[verifier::external_body]
pub(crate) fn member<'a>(value: &'a serde_json::Value, key: &str) -> (r: Option<&'a serde_json::Value>)
    ensures
        match r {
            Some(m) => json_member(*value, key@) == Some(*m),
            None => json_member(*value, key@) is None,
        },
{
    value.get(key)
}

/// `Value::as_str`: the text of a string value, `None` for other values.
#[verifier::external_body]
pub(crate) fn as_text(value: &serde_json::Value) -> (r: Option<&str>)
    ensures
        match r {
            Some(t) => json_as_text(*value) == Some(t@),
            None => json_as_text(*value) is None,
        },
{
    value.as_str()
}

/// `Value`'s `Display` (through `to_string`): the value as compact JSON text.
#[verifier::external_body]
pub(crate) fn display(value: &serde_json::Value) -> (r: String)
    ensures
        r@ == json_display(*value),
{
    value.to_string()
}

/// `Value::from(&str)`: a JSON string value holding `text`.
#[verifier::external_body]
pub(crate) fn string_value(text: &str) -> (r: serde_json::Value)
    ensures
        r == json_string(text@),
{
    serde_json::Value::from(text)
}

/// `serde_json::to_vec`: the JSON text of `value`. For a `Value` it does
/// not fail: its `Serialize` impl only hands strings, numbers, booleans,
/// null, arrays and string-keyed maps to the serializer, none of which the
/// serializer rejects, and writing into a `Vec` does not fail.
#[verifier::external_body]
pub(crate) fn to_bytes(value: &serde_json::Value) -> (r: Result<Vec<u8>, JsonError>)
    ensures
        r is Ok,
        match r {
            Ok(b) => b@ == json_bytes(*value),
            Err(_) => false,
        },
{
    serde_json::to_vec(value)
}

/// `serde_json::Error`'s `Display` (through `to_string`).
#[verifier::external_body]
pub(crate) fn json_error_text(error: &JsonError) -> (r: String)
    ensures
        r@ == json_error_display(*error),
{
    error.to_string()
}

} // verus!
