//! Conversion of every property name of a JSON document between
//! lowerCamelCase and snake_case.

use vstd::prelude::*;
use crate::identifier::{camel_of, lower_camel_to_snake, snake_of, snake_to_lower_camel};
use crate::json::{
    array_model, json_model, lists_in_key_order, object_entries, object_insert, object_model,
    object_with_capacity, value_as_array, value_as_object, value_clone, value_of_array,
    value_of_object, Json,
};
use crate::key_order::{key_before, lemma_key_before_asymmetric};
use crate::object_proofs::{
    inserted, lemma_inserted_is_transformed, lemma_inserted_keeps_values, lemma_listed_is_finite,
};

verus! {

/// The naming convention that property names are converted to.
#[derive(Clone, Copy, Debug, PartialEq, Eq)]
pub enum ConversionDirection {
    ToSnakeCase,
    ToCamelCase,
}

/// A property name in the convention that `direction` names.
pub open spec fn converted_key(key: Seq<char>, direction: ConversionDirection) -> Seq<char> {
    match direction {
        ConversionDirection::ToSnakeCase => snake_of(key),
        ConversionDirection::ToCamelCase => camel_of(key),
    }
}

/// Whether `key` is a property name of `m` that converts to `target`.
pub open spec fn converts_to(
    m: Map<Seq<char>, Json>,
    key: Seq<char>,
    target: Seq<char>,
    direction: ConversionDirection,
) -> bool {
    m.dom().contains(key) && converted_key(key, direction) == target
}

/// Whether `key` is the last, in the order of keys, of the property names of
/// `m` that convert to `target`.
pub open spec fn is_last_source(
    m: Map<Seq<char>, Json>,
    key: Seq<char>,
    target: Seq<char>,
    direction: ConversionDirection,
) -> bool {
    &&& converts_to(m, key, target, direction)
    &&& forall|other: Seq<char>| #[trigger]
        converts_to(m, other, target, direction) ==> other == key || key_before(other, key)
}

/// The last of the property names of `m` that convert to `target`.
pub open spec fn last_source(
    m: Map<Seq<char>, Json>,
    target: Seq<char>,
    direction: ConversionDirection,
) -> Seq<char> {
    choose|key: Seq<char>| is_last_source(m, key, target, direction)
}

/// The document with every property name converted, at every depth. Arrays
/// keep their length and order, other values stay as they are. Where several
/// property names of one object convert to the same name, the value of the
/// last of them, in the order of keys, is kept.
pub open spec fn transformed(doc: Json, direction: ConversionDirection) -> Json
    decreases doc,
{
    match doc {
        Json::Array(items) => Json::Array(
            Seq::new(
                items.len(),
                |i: int|
                    if 0 <= i < items.len() {
                        transformed(items[i], direction)
                    } else {
                        Json::Null
                    },
            ),
        ),
        Json::Object(m) => Json::Object(
            Map::new(
                |target: Seq<char>| exists|key: Seq<char>| converts_to(m, key, target, direction),
                |target: Seq<char>|
                    {
                        let key = last_source(m, target, direction);
                        if m.dom().finite() && m.dom().contains(key) {
                            transformed(m[key], direction)
                        } else {
                            Json::Null
                        }
                    },
            ),
        ),
        _ => doc,
    }
}

/// Whether `after` holds the values of `before` under converted names. A
/// value that is neither array nor object is the same in both. An array has
/// the same length in both, and its elements correspond one by one, in
/// order. Each entry of an object of `after` corresponds to an entry of the
/// object of `before` whose name converts to its name.
pub open spec fn keeps_values(before: Json, after: Json, direction: ConversionDirection) -> bool
    decreases before,
{
    match before {
        Json::Array(items) => {
            &&& after is Array
            &&& after->Array_0.len() == items.len()
            &&& forall|i: int|
                0 <= i < items.len() ==> keeps_values(
                    #[trigger] items[i],
                    after->Array_0[i],
                    direction,
                )
        },
        Json::Object(m) => {
            &&& after is Object
            &&& m.dom().finite()
            &&& forall|target: Seq<char>| #[trigger]
                after->Object_0.dom().contains(target) ==> exists|key: Seq<char>|
                    #[trigger] converts_to(m, key, target, direction) && keeps_values(
                        m[key],
                        after->Object_0[target],
                        direction,
                    )
        },
        _ => after == before,
    }
}

/// The last source of a name is the only one: no other property name that
/// converts to `target` comes after all the others.
pub proof fn lemma_last_source_unique(
    m: Map<Seq<char>, Json>,
    key: Seq<char>,
    target: Seq<char>,
    direction: ConversionDirection,
)
    requires
        is_last_source(m, key, target, direction),
    ensures
        last_source(m, target, direction) == key,
{
    let chosen = last_source(m, target, direction);
    if chosen != key {
        lemma_key_before_asymmetric(key, chosen);
    }
}

/// One property name in the convention that `direction` names.
pub fn convert_key(key: &str, direction: ConversionDirection) -> (result: String)
    ensures
        result@ == converted_key(key@, direction),
{
    match direction {
        ConversionDirection::ToSnakeCase => lower_camel_to_snake(key),
        ConversionDirection::ToCamelCase => snake_to_lower_camel(key),
    }
}

/// Converts every property name of `value`, at every depth, to the convention
/// that `direction` names. Nothing else changes.
pub fn transform_keys(
    value: &serde_json::Value,
    direction: ConversionDirection,
) -> (result: serde_json::Value)
    ensures
        json_model(result) == transformed(json_model(*value), direction),
        keeps_values(json_model(*value), json_model(result), direction),
    decreases json_model(*value),
{
    match value_as_object(value) {
        Some(object) => {
            let entries = object_entries(object);
            let ghost m = object_model(*object);
            proof {
                lemma_listed_is_finite(entries@, m);
            }
            let ghost keys = Seq::new(
                entries@.len(),
                |j: int| converted_key(entries@[j].0@, direction),
            );
            let ghost values = Seq::new(
                entries@.len(),
                |j: int| transformed(json_model(*entries@[j].1), direction),
            );
            let mut converted = object_with_capacity(entries.len());
            let mut i: usize = 0;
            while i < entries.len()
                invariant
                    i <= entries@.len(),
                    lists_in_key_order(entries@, m),
                    m.dom().finite(),
                    json_model(*value) == Json::Object(m),
                    keys == Seq::new(
                        entries@.len(),
                        |j: int| converted_key(entries@[j].0@, direction),
                    ),
                    values == Seq::new(
                        entries@.len(),
                        |j: int| transformed(json_model(*entries@[j].1), direction),
                    ),
                    object_model(converted) == inserted(keys, values, i as nat),
                    forall|j: int|
                        0 <= j < i ==> keeps_values(
                            json_model(*(#[trigger] entries@[j]).1),
                            values[j],
                            direction,
                        ),
                decreases entries@.len() - i,
            {
                let key = entries[i].0;
                let child = entries[i].1;
                proof {
                    let doc = json_model(*value);
                    assert(decreases_to!(doc->Object_0 => doc->Object_0[key@]));
                }
                let new_key = convert_key(key.as_str(), direction);
                let new_value = transform_keys(child, direction);
                object_insert(&mut converted, new_key, new_value);
                i += 1;
            }
            proof {
                lemma_inserted_is_transformed(entries@, m, keys, values, direction);
                lemma_inserted_keeps_values(entries@, m, keys, values, direction);
            }
            value_of_object(converted)
        },
        None => match value_as_array(value) {
            Some(items) => {
                let mut converted: Vec<serde_json::Value> = Vec::with_capacity(items.len());
                let mut i: usize = 0;
                while i < items.len()
                    invariant
                        i <= items@.len(),
                        json_model(*value) == Json::Array(array_model(items@)),
                        converted@.len() == i,
                        forall|j: int|
                            0 <= j < i ==> json_model(#[trigger] converted@[j]) == transformed(
                                json_model(items@[j]),
                                direction,
                            ),
                        forall|j: int|
                            0 <= j < i ==> keeps_values(
                                json_model(items@[j]),
                                json_model(#[trigger] converted@[j]),
                                direction,
                            ),
                    decreases items@.len() - i,
                {
                    proof {
                        let doc = json_model(*value);
                        assert(decreases_to!(doc->Array_0 => doc->Array_0[i as int]));
                    }
                    let element = transform_keys(&items[i], direction);
                    converted.push(element);
                    i += 1;
                }
                proof {
                    let source = array_model(items@);
                    let after = array_model(converted@);
                    assert(after =~= transformed(Json::Array(source), direction)->Array_0);
                    assert forall|j: int| 0 <= j < source.len() implies keeps_values(
                        #[trigger] source[j],
                        after[j],
                        direction,
                    ) by {
                        assert(after[j] == json_model(converted@[j]));
                    }
                }
                value_of_array(converted)
            },
            None => value_clone(value),
        },
    }
}

/// Converts all JSON object property names from lowerCamelCase to snake_case.
pub fn json_keys_to_snake_case(value: &serde_json::Value) -> (result: serde_json::Value)
    ensures
        json_model(result) == transformed(json_model(*value), ConversionDirection::ToSnakeCase),
        keeps_values(json_model(*value), json_model(result), ConversionDirection::ToSnakeCase),
{
    transform_keys(value, ConversionDirection::ToSnakeCase)
}

/// Converts all JSON object property names from snake_case to lowerCamelCase.
pub fn json_keys_to_lower_camel_case(value: &serde_json::Value) -> (result: serde_json::Value)
    ensures
        json_model(result) == transformed(json_model(*value), ConversionDirection::ToCamelCase),
        keeps_values(json_model(*value), json_model(result), ConversionDirection::ToCamelCase),
{
    transform_keys(value, ConversionDirection::ToCamelCase)
}

} // verus!
