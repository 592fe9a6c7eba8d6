//! The JSON document model, and the `serde_json` operations that the crate
//! relies on.
//!
//! `serde_json::Value` and its object map are opaque to the verifier. Their
//! contents are named by `json_model` and `object_model`; every statement
//! about them below is taken on trust from `serde_json`, built with its
//! default features (objects are B-tree maps, ordered by key).

use vstd::prelude::*;
use crate::key_order::key_before;

verus! {

/// `serde_json::Value`, carried as an opaque value: what it holds is
/// `json_model` of it.
#[verifier::external_type_specification]
#[verifier::external_body]
pub struct ExValue(serde_json::Value);

/// `serde_json::Number`, carried as an opaque value: a number is never looked
/// into, only handed on.
#[verifier::external_type_specification]
#[verifier::external_body]
pub struct ExNumber(serde_json::Number);

/// `serde_json::Map`, carried as an opaque value: what it holds is
/// `object_model` of it.
#[verifier::external_type_specification]
#[verifier::external_body]
#[verifier::reject_recursive_types(K)]
#[verifier::reject_recursive_types(V)]
pub struct ExObject<K, V>(serde_json::Map<K, V>);

/// A JSON document as a mathematical value.
pub enum Json {
    Null,
    Bool(bool),
    Number(serde_json::Number),
    Text(Seq<char>),
    Array(Seq<Json>),
    Object(Map<Seq<char>, Json>),
}

/// The document that a `serde_json::Value` holds.
pub uninterp spec fn json_model(value: serde_json::Value) -> Json;

/// The entries that a `serde_json::Map` holds.
pub uninterp spec fn object_model(object: serde_json::Map<String, serde_json::Value>) -> Map<Seq<char>, Json>;

/// The document that `serde_json` reads from a text, if it accepts the text.
pub uninterp spec fn parsed_json(text: Seq<u8>) -> Option<Json>;

/// The text that `serde_json` writes for a document, if it writes one.
pub uninterp spec fn json_text(doc: Json) -> Option<Seq<u8>>;

/// The entries of an empty object.
pub open spec fn no_entries() -> Map<Seq<char>, Json> {
    Map::empty()
}

/// The documents that a vector of values holds, in order.
pub open spec fn array_model(items: Seq<serde_json::Value>) -> Seq<Json> {
    Seq::new(items.len(), |i: int| json_model(items[i]))
}

/// Whether `entries` lists the object `m` in ascending order of its keys:
/// every entry is one of `m`, every key of `m` occurs, and each key comes
/// before all later ones.
pub open spec fn lists_in_key_order(
    entries: Seq<(&String, &serde_json::Value)>,
    m: Map<Seq<char>, Json>,
) -> bool {
    &&& forall|i: int|
        0 <= i < entries.len() ==> m.contains_pair(
            (#[trigger] entries[i]).0@,
            json_model(*entries[i].1),
        )
    &&& forall|k: Seq<char>|
        m.dom().contains(k) ==> exists|i: int|
            0 <= i < entries.len() && (#[trigger] entries[i]).0@ == k
    &&& forall|i: int, j: int|
        0 <= i < j < entries.len() ==> key_before(
            (#[trigger] entries[i]).0@,
            (#[trigger] entries[j]).0@,
        )
}

/// `Value::as_object`: the map of an object, nothing for any other value.
#[verifier::external_body]
pub(crate) fn value_as_object(value: &serde_json::Value) -> (r: Option<&serde_json::Map<String, serde_json::Value>>)
    ensures
        r is Some <==> json_model(*value) is Object,
        r is Some ==> json_model(*value) == Json::Object(object_model(*r->0)),
{
    value.as_object()
}

/// `Value::as_array`: the elements of an array, nothing for any other value.
#[verifier::external_body]
pub(crate) fn value_as_array(value: &serde_json::Value) -> (r: Option<&Vec<serde_json::Value>>)
    ensures
        r is Some <==> json_model(*value) is Array,
        r is Some ==> json_model(*value) == Json::Array(array_model(r->0@)),
{
    value.as_array()
}

/// `Value::clone`: a value that holds the same document.
#[verifier::external_body]
pub(crate) fn value_clone(value: &serde_json::Value) -> (r: serde_json::Value)
    ensures
        json_model(r) == json_model(*value),
{
    value.clone()
}

/// `Value::Array`: the array of the given elements.
#[verifier::external_body]
pub(crate) fn value_of_array(items: Vec<serde_json::Value>) -> (r: serde_json::Value)
    ensures
        json_model(r) == Json::Array(array_model(items@)),
{
    serde_json::Value::Array(items)
}

/// `Value::Object`: the object of the given map.
#[verifier::external_body]
pub(crate) fn value_of_object(object: serde_json::Map<String, serde_json::Value>) -> (r: serde_json::Value)
    ensures
        json_model(r) == Json::Object(object_model(object)),
{
    serde_json::Value::Object(object)
}

/// `Map::with_capacity`: an empty map, whatever the capacity.
#[verifier::external_body]
pub(crate) fn object_with_capacity(capacity: usize) -> (r: serde_json::Map<String, serde_json::Value>)
    ensures
        object_model(r) == no_entries(),
{
    serde_json::Map::with_capacity(capacity)
}

/// `Map::insert`: the key now holds the value, whether or not it held one
/// before; the other entries stay.
#[verifier::external_body]
pub(crate) fn object_insert(
    object: &mut serde_json::Map<String, serde_json::Value>,
    key: String,
    value: serde_json::Value,
)
    ensures
        object_model(*final(object)) == object_model(*old(object)).insert(
            key@,
            json_model(value),
        ),
{
    object.insert(key, value);
}

/// `Map::iter`, collected: the entries of the map, in ascending order of
/// their keys.
#[verifier::external_body]
pub(crate) fn object_entries(object: &serde_json::Map<String, serde_json::Value>) -> (r: Vec<(&String, &serde_json::Value)>)
    ensures
        lists_in_key_order(r@, object_model(*object)),
{
    object.iter().collect()
}

/// `serde_json::from_slice` for a `Value`: the document read from the text,
/// nothing where `serde_json` rejects the text.
#[verifier::external_body]
pub(crate) fn parse_json(text: &[u8]) -> (r: Option<serde_json::Value>)
    ensures
        r is Some <==> parsed_json(text@) is Some,
        r is Some ==> parsed_json(text@) == Some(json_model(r->0)),
{
    serde_json::from_slice::<serde_json::Value>(text).ok()
}

/// `serde_json::to_vec` of a `Value`: the text written for its document,
/// nothing where `serde_json` reports an error.
#[verifier::external_body]
pub(crate) fn serialize_json(value: &serde_json::Value) -> (r: Option<Vec<u8>>)
    ensures
        r is Some <==> json_text(json_model(*value)) is Some,
        r is Some ==> json_text(json_model(*value)) == Some(r->0@),
{
    serde_json::to_vec(value).ok()
}

} // verus!
