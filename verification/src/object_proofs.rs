//! Why inserting the converted entries of an object one by one, in the
//! order of its keys, builds the object that the conversion is defined to
//! give.

use vstd::prelude::*;
use crate::json::{json_model, lists_in_key_order, Json};
use crate::json_convert::{
    converted_key, converts_to, keeps_values, last_source, lemma_last_source_unique,
    transformed, ConversionDirection,
};
use crate::key_order::key_before;

verus! {

/// The entries that the first `n` insertions leave: `keys[j]` then holds
/// `values[j]` for the greatest such `j` below `n`.
pub open spec fn inserted(keys: Seq<Seq<char>>, values: Seq<Json>, n: nat) -> Map<Seq<char>, Json>
    decreases n,
{
    if n == 0 {
        Map::empty()
    } else {
        inserted(keys, values, (n - 1) as nat).insert(keys[n - 1], values[n - 1])
    }
}

/// Which names the first `n` insertions leave, and with which values.
proof fn lemma_inserted(keys: Seq<Seq<char>>, values: Seq<Json>, n: nat)
    requires
        n <= keys.len(),
        keys.len() == values.len(),
    ensures
        forall|target: Seq<char>|
            inserted(keys, values, n).dom().contains(target) <==> exists|j: int|
                0 <= j < n && #[trigger] keys[j] == target,
        forall|j: int|
            0 <= j < n && (forall|later: int| j < later < n ==> keys[later] != #[trigger] keys[j])
                ==> inserted(keys, values, n)[keys[j]] == values[j],
    decreases n,
{
    if n > 0 {
        lemma_inserted(keys, values, (n - 1) as nat);
        let before = inserted(keys, values, (n - 1) as nat);
        let after = inserted(keys, values, n);
        assert forall|target: Seq<char>| after.dom().contains(target) implies exists|j: int|
            0 <= j < n && #[trigger] keys[j] == target by {
            if target != keys[n - 1] {
                let j = choose|j: int| 0 <= j < n - 1 && #[trigger] keys[j] == target;
                assert(keys[j] == target);
            }
        }
        assert forall|j: int|
            0 <= j < n && (forall|later: int|
                j < later < n ==> keys[later] != #[trigger] keys[j]) implies after[keys[j]]
            == values[j] by {
            if j < n - 1 {
                assert(keys[n - 1] != keys[j]);
            }
        }
    }
}

/// An object that can be listed holds finitely many entries.
pub(crate) proof fn lemma_listed_is_finite(
    entries: Seq<(&String, &serde_json::Value)>,
    m: Map<Seq<char>, Json>,
)
    requires
        lists_in_key_order(entries, m),
    ensures
        m.dom().finite(),
{
    let listed = Seq::new(entries.len(), |i: int| entries[i].0@);
    assert forall|k: Seq<char>| m.dom().contains(k) implies listed.to_set().contains(k) by {
        let i = choose|i: int| 0 <= i < entries.len() && (#[trigger] entries[i]).0@ == k;
        assert(listed[i] == k);
    }
    assert forall|k: Seq<char>| listed.to_set().contains(k) implies m.dom().contains(k) by {
        let i = choose|i: int| 0 <= i < listed.len() && listed[i] == k;
        assert(m.contains_pair(entries[i].0@, json_model(*entries[i].1)));
    }
    assert(m.dom() =~= listed.to_set());
    vstd::seq_lib::seq_to_set_is_finite(listed);
}

/// The entry at `last`, the greatest index whose key converts to `target`, is
/// the last source of `target`.
proof fn lemma_last_listed_is_last_source(
    entries: Seq<(&String, &serde_json::Value)>,
    m: Map<Seq<char>, Json>,
    direction: ConversionDirection,
    target: Seq<char>,
    last: int,
)
    requires
        lists_in_key_order(entries, m),
        0 <= last < entries.len(),
        converted_key(entries[last].0@, direction) == target,
        forall|later: int|
            last < later < entries.len() ==> converted_key(
                (#[trigger] entries[later]).0@,
                direction,
            ) != target,
    ensures
        last_source(m, target, direction) == entries[last].0@,
        m.contains_pair(entries[last].0@, json_model(*entries[last].1)),
{
    let key = entries[last].0@;
    assert forall|other: Seq<char>| #[trigger]
        converts_to(m, other, target, direction) implies other == key || key_before(other, key) by {
        let i = choose|i: int| 0 <= i < entries.len() && (#[trigger] entries[i]).0@ == other;
        if i < last {
            assert(key_before(entries[i].0@, entries[last].0@));
        }
    }
    lemma_last_source_unique(m, key, target, direction);
}

/// What `transformed` makes of an object, entry by entry.
proof fn lemma_transformed_object(
    m: Map<Seq<char>, Json>,
    direction: ConversionDirection,
    target: Seq<char>,
)
    requires
        m.dom().finite(),
    ensures
        transformed(Json::Object(m), direction) is Object,
        transformed(Json::Object(m), direction)->Object_0.dom().contains(target) <==> exists|
            key: Seq<char>,
        | converts_to(m, key, target, direction),
        (exists|key: Seq<char>| converts_to(m, key, target, direction)) && m.dom().contains(
            last_source(m, target, direction),
        ) ==> transformed(Json::Object(m), direction)->Object_0[target] == transformed(
            m[last_source(m, target, direction)],
            direction,
        ),
{
}

/// Inserting the converted entries of an object in the order of its keys
/// gives the object that `transformed` describes.
pub(crate) proof fn lemma_inserted_is_transformed(
    entries: Seq<(&String, &serde_json::Value)>,
    m: Map<Seq<char>, Json>,
    keys: Seq<Seq<char>>,
    values: Seq<Json>,
    direction: ConversionDirection,
)
    requires
        lists_in_key_order(entries, m),
        keys == Seq::new(entries.len(), |j: int| converted_key(entries[j].0@, direction)),
        values == Seq::new(
            entries.len(),
            |j: int| transformed(json_model(*entries[j].1), direction),
        ),
    ensures
        Json::Object(inserted(keys, values, entries.len())) == transformed(
            Json::Object(m),
            direction,
        ),
{
    let n = entries.len();
    let built = inserted(keys, values, n);
    let goal = transformed(Json::Object(m), direction)->Object_0;
    lemma_listed_is_finite(entries, m);
    assert forall|target: Seq<char>| #[trigger]
        built.dom().contains(target) == goal.dom().contains(target) by {
        lemma_same_entry(entries, m, keys, values, direction, target);
    }
    assert forall|target: Seq<char>| built.dom().contains(target) implies #[trigger] built[target]
        == goal[target] by {
        lemma_same_entry(entries, m, keys, values, direction, target);
    }
    assert(built =~= goal);
    lemma_transformed_object(m, direction, Seq::empty());
}

/// The object built by insertion and the object that `transformed` describes
/// agree on `target`.
proof fn lemma_same_entry(
    entries: Seq<(&String, &serde_json::Value)>,
    m: Map<Seq<char>, Json>,
    keys: Seq<Seq<char>>,
    values: Seq<Json>,
    direction: ConversionDirection,
    target: Seq<char>,
)
    requires
        lists_in_key_order(entries, m),
        m.dom().finite(),
        keys == Seq::new(entries.len(), |j: int| converted_key(entries[j].0@, direction)),
        values == Seq::new(
            entries.len(),
            |j: int| transformed(json_model(*entries[j].1), direction),
        ),
    ensures
        inserted(keys, values, entries.len()).dom().contains(target) == transformed(
            Json::Object(m),
            direction,
        )->Object_0.dom().contains(target),
        inserted(keys, values, entries.len()).dom().contains(target) ==> inserted(
            keys,
            values,
            entries.len(),
        )[target] == transformed(Json::Object(m), direction)->Object_0[target],
{
    let n = entries.len();
    let built = inserted(keys, values, n);
    lemma_inserted(keys, values, n);
    lemma_transformed_object(m, direction, target);
    if built.dom().contains(target) {
        let first = choose|j: int| 0 <= j < n && #[trigger] keys[j] == target;
        assert(converts_to(m, entries[first].0@, target, direction));
        let last = lemma_last_index(keys, n, target, first);
        assert forall|later: int| last < later < n implies converted_key(
            (#[trigger] entries[later]).0@,
            direction,
        ) != target by {
            assert(keys[later] != target);
        }
        lemma_last_listed_is_last_source(entries, m, direction, target, last);
    } else if exists|key: Seq<char>| converts_to(m, key, target, direction) {
        let some = choose|key: Seq<char>| converts_to(m, key, target, direction);
        let i = choose|i: int| 0 <= i < n && (#[trigger] entries[i]).0@ == some;
        assert(keys[i] == target);
    }
}

/// The object built by insertion holds the values of the listed object under
/// converted names, where each inserted value holds those of its entry.
pub(crate) proof fn lemma_inserted_keeps_values(
    entries: Seq<(&String, &serde_json::Value)>,
    m: Map<Seq<char>, Json>,
    keys: Seq<Seq<char>>,
    values: Seq<Json>,
    direction: ConversionDirection,
)
    requires
        lists_in_key_order(entries, m),
        m.dom().finite(),
        keys == Seq::new(entries.len(), |j: int| converted_key(entries[j].0@, direction)),
        values.len() == entries.len(),
        forall|j: int|
            0 <= j < entries.len() ==> keeps_values(
                json_model(*(#[trigger] entries[j]).1),
                values[j],
                direction,
            ),
    ensures
        keeps_values(
            Json::Object(m),
            Json::Object(inserted(keys, values, entries.len())),
            direction,
        ),
{
    let n = entries.len();
    let built = inserted(keys, values, n);
    lemma_inserted(keys, values, n);
    assert forall|target: Seq<char>| #[trigger] built.dom().contains(target) implies exists|
        key: Seq<char>,
    | #[trigger]
        converts_to(m, key, target, direction) && keeps_values(m[key], built[target], direction) by {
        let first = choose|j: int| 0 <= j < n && #[trigger] keys[j] == target;
        let last = lemma_last_index(keys, n, target, first);
        let key = entries[last].0@;
        assert(converts_to(m, key, target, direction));
    }
}

/// Among the indices below `n` whose key is `target`, of which `from` is
/// one, the greatest.
proof fn lemma_last_index(
    keys: Seq<Seq<char>>,
    n: nat,
    target: Seq<char>,
    from: int,
) -> (last: int)
    requires
        0 <= from < n <= keys.len(),
        keys[from] == target,
    ensures
        from <= last < n,
        keys[last] == target,
        forall|later: int| last < later < n ==> keys[later] != target,
    decreases n - from,
{
    if exists|later: int| from < later < n && keys[later] == target {
        let next = choose|later: int| from < later < n && keys[later] == target;
        lemma_last_index(keys, n, target, next)
    } else {
        from
    }
}

} // verus!
