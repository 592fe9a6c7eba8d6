//! The round trip from lowerCamelCase to snake_case and back.
//!
//! The trip is not the identity in general: `httpURL` comes back as
//! `httpUrl`. It is for the identifiers singled out by
//! `one_capital_per_word`.

use vstd::prelude::*;
use crate::identifier::{
    camel_join, camel_of, is_lower_or_digit, lemma_run_len, lemma_run_len_bounds, no_separator,
    run_len, segments, snake_of, snake_prefix,
};
use crate::identifier_laws::lemma_single_segment;
use crate::letters::{all_ascii, ascii_lower, ascii_upper, is_ascii, is_upper};

verus! {

/// An ASCII identifier without a separator in which every capital letter
/// directly follows a small letter or a digit: it begins with no capital and
/// holds no run of capitals.
pub open spec fn one_capital_per_word(s: Seq<char>) -> bool {
    &&& all_ascii(s)
    &&& no_separator(s)
    &&& forall|i: int|
        0 <= i < s.len() && is_upper(#[trigger] s[i]) ==> i > 0 && is_lower_or_digit(s[i - 1])
}

/// A string that ends in a character other than the separator has a segment.
pub proof fn lemma_segments_nonempty(a: Seq<char>)
    requires
        a.len() > 0,
        a.last() != '_',
    ensures
        segments(a).len() > 0,
    decreases a.len(),
{
    if a[0] == '_' {
        lemma_segments_nonempty(a.skip(1));
    } else {
        lemma_run_len_bounds(a);
    }
}

/// A separator at the end adds no segment.
pub proof fn lemma_segments_push_separator(a: Seq<char>)
    ensures
        segments(a.push('_')) == segments(a),
    decreases a.len(),
{
    let longer = a.push('_');
    if a.len() == 0 {
        assert(segments(longer) == segments(longer.skip(1)));
    } else if a[0] == '_' {
        assert(longer.skip(1) == a.skip(1).push('_'));
        lemma_segments_push_separator(a.skip(1));
    } else {
        let n = run_len(a);
        lemma_run_len_bounds(a);
        assert forall|t: int| 0 <= t < n implies longer[t] != '_' by {
            assert(longer[t] == a.take(n as int)[t]);
        }
        lemma_run_len(longer, n);
        assert(longer.take(n as int) == a.take(n as int));
        assert(longer.skip(n as int) == a.skip(n as int).push('_'));
        lemma_segments_push_separator(a.skip(n as int));
    }
}

/// What one more character, not a separator, adds to the camelCase form of an
/// ASCII string: after a character that is no separator it goes on the
/// running segment as a small letter; otherwise it opens a segment, as a
/// capital unless that segment leads.
pub proof fn lemma_camel_push(a: Seq<char>, x: char, leading: bool)
    requires
        all_ascii(a),
        is_ascii(x),
        x != '_',
    ensures
        camel_join(segments(a.push(x)), leading) == if a.len() > 0 && a.last() != '_' {
            camel_join(segments(a), leading).push(ascii_lower(x))
        } else if leading && segments(a).len() == 0 {
            camel_join(segments(a), leading).push(ascii_lower(x))
        } else {
            camel_join(segments(a), leading).push(ascii_upper(x))
        },
    decreases a.len(),
{
    let longer = a.push(x);
    if a.len() == 0 {
        lemma_single_segment(longer);
    } else if a[0] == '_' {
        assert(longer.skip(1) == a.skip(1).push(x));
        lemma_camel_push(a.skip(1), x, leading);
    } else {
        let n = run_len(a);
        lemma_run_len_bounds(a);
        let first = a.take(n as int);
        let rest = a.skip(n as int);
        if n == a.len() {
            assert(a.take(n as int) == a);
            lemma_single_segment(a);
            lemma_single_segment(longer);
        } else {
            assert forall|t: int| 0 <= t < n implies longer[t] != '_' by {
                assert(longer[t] == first[t]);
            }
            lemma_run_len(longer, n);
            assert(longer.take(n as int) == first);
            assert(longer.skip(n as int) == rest.push(x));
            lemma_camel_push(rest, x, false);
            let before = segments(rest);
            let after = segments(rest.push(x));
            assert(segments(a).skip(1) == before);
            assert(segments(longer).skip(1) == after);
        }
    }
}

/// The output for a prefix of such an identifier: a capital letter adds a
/// separator and its small letter, any other character adds itself.
pub proof fn lemma_snake_prefix_by_letter(s: Seq<char>, n: nat)
    requires
        one_capital_per_word(s),
        n <= s.len(),
    ensures
        all_ascii(snake_prefix(s, n)),
        n > 0 ==> snake_prefix(s, n).len() > 0 && snake_prefix(s, n).last() == ascii_lower(
            s[n - 1],
        ),
        n > 0 && is_upper(s[n - 1]) ==> snake_prefix(s, n) == snake_prefix(
            s,
            (n - 1) as nat,
        ).push('_').push(ascii_lower(s[n - 1])),
        n > 0 && !is_upper(s[n - 1]) ==> snake_prefix(s, n) == snake_prefix(
            s,
            (n - 1) as nat,
        ).push(s[n - 1]),
    decreases n,
{
    if n > 0 {
        lemma_snake_prefix_by_letter(s, (n - 1) as nat);
    }
}

/// The round trip is the identity on every prefix of such an identifier.
pub proof fn lemma_round_trip_prefix(s: Seq<char>, n: nat)
    requires
        one_capital_per_word(s),
        n <= s.len(),
    ensures
        camel_of(snake_prefix(s, n)) == s.take(n as int),
    decreases n,
{
    if n > 0 {
        lemma_round_trip_prefix(s, (n - 1) as nat);
        lemma_snake_prefix_by_letter(s, (n - 1) as nat);
        lemma_snake_prefix_by_letter(s, n);
        let out = snake_prefix(s, (n - 1) as nat);
        let c = s[n - 1];
        if is_upper(c) {
            let marked = out.push('_');
            lemma_segments_push_separator(out);
            lemma_segments_nonempty(out);
            lemma_camel_push(marked, ascii_lower(c), true);
        } else {
            lemma_camel_push(out, c, true);
        }
    }
}

/// Converting such an identifier to snake_case and back gives the identifier.
pub proof fn lemma_round_trip(s: Seq<char>)
    requires
        one_capital_per_word(s),
    ensures
        camel_of(snake_of(s)) == s,
{
    lemma_round_trip_prefix(s, s.len());
}

} // verus!
