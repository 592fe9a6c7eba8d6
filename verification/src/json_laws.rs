//! What holds of the conversion of property names in a document.

use vstd::prelude::*;
use crate::json::Json;
use crate::json_convert::{
    converted_key, converts_to, is_last_source, keeps_values, last_source, transformed,
    ConversionDirection,
};
use crate::key_order::lemma_last_key;

verus! {

/// Among the property names of a finite object that convert to `target`, if
/// there is any, `last_source` is the last one.
pub proof fn lemma_last_source_exists(
    m: Map<Seq<char>, Json>,
    target: Seq<char>,
    direction: ConversionDirection,
)
    requires
        m.dom().finite(),
        exists|key: Seq<char>| converts_to(m, key, target, direction),
    ensures
        is_last_source(m, last_source(m, target, direction), target, direction),
{
    let some = choose|key: Seq<char>| converts_to(m, key, target, direction);
    let sources = m.dom().filter(|key: Seq<char>| converted_key(key, direction) == target);
    assert(sources.contains(some));
    m.dom().lemma_len_filter(|key: Seq<char>| converted_key(key, direction) == target);
    assert(sources.len() > 0);
    let last = lemma_last_key(sources);
    assert(is_last_source(m, last, target, direction));
}

/// Every object of the document, at every depth, holds finitely many entries.
pub open spec fn well_formed(doc: Json) -> bool
    decreases doc,
{
    match doc {
        Json::Array(items) => forall|i: int|
            0 <= i < items.len() ==> well_formed(#[trigger] items[i]),
        Json::Object(m) => m.dom().finite() && forall|key: Seq<char>|
            m.dom().contains(key) ==> well_formed(#[trigger] m[key]),
        _ => true,
    }
}

/// Converting the property names of a document changes no array length, no
/// order of elements, and no value other than a property name, at any depth.
pub proof fn lemma_transform_keeps_values(doc: Json, direction: ConversionDirection)
    requires
        well_formed(doc),
    ensures
        keeps_values(doc, transformed(doc, direction), direction),
    decreases doc,
{
    let after = transformed(doc, direction);
    match doc {
        Json::Array(items) => {
            assert forall|i: int| 0 <= i < items.len() implies keeps_values(
                #[trigger] items[i],
                after->Array_0[i],
                direction,
            ) by {
                lemma_transform_keeps_values(items[i], direction);
            }
        },
        Json::Object(m) => {
            assert forall|target: Seq<char>| #[trigger]
                after->Object_0.dom().contains(target) implies exists|key: Seq<char>|
                #[trigger] converts_to(m, key, target, direction) && keeps_values(
                    m[key],
                    after->Object_0[target],
                    direction,
                ) by {
                lemma_last_source_exists(m, target, direction);
                let key = last_source(m, target, direction);
                lemma_transform_keeps_values(m[key], direction);
            }
        },
        _ => {},
    }
}

} // verus!
