//! The order of property names: the order of `String`, in which
//! `serde_json` keeps the entries of an object.

use vstd::prelude::*;

verus! {

/// The order of `String`: lexicographic by code point.
pub open spec fn key_before(a: Seq<char>, b: Seq<char>) -> bool
    decreases a.len(),
{
    if b.len() == 0 {
        false
    } else if a.len() == 0 {
        true
    } else if a[0] != b[0] {
        a[0] < b[0]
    } else {
        key_before(a.skip(1), b.skip(1))
    }
}

/// The order of keys never places two keys each before the other.
pub proof fn lemma_key_before_asymmetric(a: Seq<char>, b: Seq<char>)
    requires
        key_before(a, b),
    ensures
        !key_before(b, a),
    decreases a.len(),
{
    if a.len() > 0 && b.len() > 0 && a[0] == b[0] {
        lemma_key_before_asymmetric(a.skip(1), b.skip(1));
    }
}

/// Two keys are equal, or one comes before the other.
pub proof fn lemma_key_order_total(a: Seq<char>, b: Seq<char>)
    ensures
        a == b || key_before(a, b) || key_before(b, a),
    decreases a.len(),
{
    if a.len() > 0 && b.len() > 0 && a[0] == b[0] {
        lemma_key_order_total(a.skip(1), b.skip(1));
        if a.skip(1) == b.skip(1) {
            assert(b =~= seq![b[0]] + b.skip(1));
        }
    }
}

/// The order of keys is transitive.
pub proof fn lemma_key_before_transitive(a: Seq<char>, b: Seq<char>, c: Seq<char>)
    requires
        key_before(a, b),
        key_before(b, c),
    ensures
        key_before(a, c),
    decreases a.len(),
{
    if a.len() > 0 && b.len() > 0 && c.len() > 0 && a[0] == b[0] && b[0] == c[0] {
        lemma_key_before_transitive(a.skip(1), b.skip(1), c.skip(1));
    }
}

/// A finite set of keys that is not empty has a last key.
pub proof fn lemma_last_key(keys: Set<Seq<char>>) -> (last: Seq<char>)
    requires
        keys.finite(),
        keys.len() > 0,
    ensures
        keys.contains(last),
        forall|other: Seq<char>|
            keys.contains(other) ==> other == last || #[trigger] key_before(other, last),
    decreases keys.len(),
{
    let x = keys.choose();
    let rest = keys.remove(x);
    if rest.len() == 0 {
        assert forall|other: Seq<char>| keys.contains(other) implies other == x by {
            assert(other == x || rest.contains(other));
        }
        x
    } else {
        let y = lemma_last_key(rest);
        lemma_key_order_total(x, y);
        if key_before(y, x) {
            assert forall|other: Seq<char>| keys.contains(other) implies other == x
                || #[trigger] key_before(other, x) by {
                if other != x && other != y {
                    lemma_key_before_transitive(other, y, x);
                }
            }
            x
        } else {
            y
        }
    }
}

} // verus!
