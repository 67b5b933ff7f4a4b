//! JSON values, built by `serde_json` and described by what they hold.

use serde_json::Value;
use vstd::prelude::*;

verus! {

/// What a JSON value holds.
pub enum Json {
    /// `null`, a boolean, or a number that is no `u64`, in JSON's own spelling.
    Literal(Seq<char>),
    Number(nat),
    Text(Seq<char>),
    List(Seq<Json>),
    Object(Map<Seq<char>, Json>),
}

/// A JSON value of `serde_json`.
#[verifier::external_type_specification]
#[verifier::external_body]
pub struct ExValue(serde_json::Value);

/// The map a JSON object is made of.
#[verifier::external_type_specification]
#[verifier::external_body]
#[verifier::reject_recursive_types(K)]
#[verifier::reject_recursive_types(V)]
pub struct ExMap<K, V>(serde_json::Map<K, V>);

/// The error of `serde_json`.
#[verifier::external_type_specification]
#[verifier::external_body]
pub struct ExError(serde_json::Error);

/// What a value of `serde_json` holds.
pub uninterp spec fn json_of(value: serde_json::Value) -> Json;

/// What a map of `serde_json` holds.
pub uninterp spec fn entries_of(map: serde_json::Map<String, serde_json::Value>) -> Map<
    Seq<char>,
    Json,
>;

/// The bytes `serde_json` writes a value as.
pub uninterp spec fn json_bytes(json: Json) -> Seq<u8>;

/// No entry at all.
pub open spec fn no_entries() -> Map<Seq<char>, Json> {
    Map::empty()
}

/// What each of several values holds.
pub open spec fn jsons_of(values: Seq<serde_json::Value>) -> Seq<Json> {
    values.map_values(|v: serde_json::Value| json_of(v))
}

/// `Value::from` of a string: a JSON string with these characters.
#[verifier::external_body]
pub(crate) fn text_value(s: &str) -> (r: Value)
    ensures
        json_of(r) == Json::Text(s@),
{
    Value::from(s)
}

/// `Value::from` of a `u64`: a JSON number with this value.
#[verifier::external_body]
pub(crate) fn number_value(n: u64) -> (r: Value)
    ensures
        json_of(r) == Json::Number(n as nat),
{
    Value::from(n)
}

/// `Value::from` of a vector of values: a JSON array of them, in order.
#[verifier::external_body]
pub(crate) fn list_value(values: Vec<Value>) -> (r: Value)
    ensures
        json_of(r) == Json::List(jsons_of(values@)),
{
    Value::from(values)
}

/// `Value::from` of a map: a JSON object with its entries.
#[verifier::external_body]
pub(crate) fn object_value(map: serde_json::Map<String, Value>) -> (r: Value)
    ensures
        json_of(r) == Json::Object(entries_of(map)),
{
    Value::from(map)
}

/// `Map::new`: a map with no entry.
#[verifier::external_body]
pub(crate) fn new_map() -> (r: serde_json::Map<String, Value>)
    ensures
        entries_of(r) == no_entries(),
{
    serde_json::Map::new()
}

/// `Map::insert`: the value now stands under the key, in the place of any that
/// stood there, and nothing else changes.
#[verifier::external_body]
pub(crate) fn map_insert(map: &mut serde_json::Map<String, Value>, key: &str, value: Value)
    ensures
        entries_of(*final(map)) == entries_of(*old(map)).insert(key@, json_of(value)),
{
    map.insert(key.to_owned(), value);
}

/// `serde_json::to_vec` of a value: it succeeds, since every key of a JSON object
/// is a string and a vector takes every write, and the bytes are a function of
/// what the value holds.
#[verifier::external_body]
pub(crate) fn to_vec(value: &Value) -> (r: Result<Vec<u8>, serde_json::Error>)
    ensures
        r is Ok,
        r->Ok_0@ == json_bytes(json_of(*value)),
{
    serde_json::to_vec(value)
}

} // verus!
