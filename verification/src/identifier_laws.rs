//! What holds of the two identifier conversions.

use vstd::prelude::*;
use crate::identifier::{
    camel_join, camel_of, capitalized, capitals_fold, is_lower_or_digit, lemma_run_len,
    lemma_run_len_bounds, no_capitals, no_separator, run_len, segments, separator_before,
    snake_of, snake_prefix,
};
use crate::letters::{all_ascii, is_lower, is_upper, lower_str};

verus! {

/// Every ASCII string is made of letters whose capitals fold.
pub proof fn lemma_ascii_capitals_fold(s: Seq<char>)
    requires
        all_ascii(s),
    ensures
        capitals_fold(s),
{
}

/// Where the capitals of `s` fold, the output for any prefix of `s` holds no
/// capital letter.
pub proof fn lemma_snake_prefix_has_no_capitals(s: Seq<char>, n: nat)
    requires
        n <= s.len(),
        capitals_fold(s),
    ensures
        no_capitals(snake_prefix(s, n)),
    decreases n,
{
    if n > 0 {
        lemma_snake_prefix_has_no_capitals(s, (n - 1) as nat);
    }
}

/// A string without capital letters is its own snake_case form, prefix by
/// prefix.
pub proof fn lemma_snake_prefix_of_lowercase(s: Seq<char>, n: nat)
    requires
        n <= s.len(),
        no_capitals(s),
    ensures
        snake_prefix(s, n) == s.take(n as int),
    decreases n,
{
    if n > 0 {
        lemma_snake_prefix_of_lowercase(s, (n - 1) as nat);
    }
}

/// The snake_case form holds no capital letter, where the capitals of the
/// identifier fold.
pub proof fn lemma_snake_has_no_capitals(s: Seq<char>)
    requires
        capitals_fold(s),
    ensures
        no_capitals(snake_of(s)),
{
    lemma_snake_prefix_has_no_capitals(s, s.len());
}

/// Converting to snake_case twice gives what converting once gives, where the
/// capitals of the identifier fold.
pub proof fn lemma_snake_idempotent(s: Seq<char>)
    requires
        capitals_fold(s),
    ensures
        snake_of(snake_of(s)) == snake_of(s),
{
    lemma_snake_has_no_capitals(s);
    lemma_snake_prefix_of_lowercase(snake_of(s), snake_of(s).len());
}

/// Converting an ASCII identifier to snake_case twice gives what converting
/// once gives.
pub proof fn lemma_snake_idempotent_ascii(s: Seq<char>)
    requires
        all_ascii(s),
    ensures
        snake_of(snake_of(s)) == snake_of(s),
{
    lemma_ascii_capitals_fold(s);
    lemma_snake_idempotent(s);
}

/// In an ASCII identifier a separator goes in front of a capital letter
/// exactly at a transition: where the letter follows a small letter or a
/// digit, or follows a capital and is followed by a small letter.
pub proof fn lemma_separator_at_transitions(s: Seq<char>, i: int)
    requires
        all_ascii(s),
        0 <= i < s.len(),
    ensures
        separator_before(s, i, snake_prefix(s, i as nat)) <==> i > 0 && (is_lower_or_digit(
            s[i - 1],
        ) || (is_upper(s[i - 1]) && i + 1 < s.len() && is_lower(s[i + 1]))),
{
}

/// A non-empty string without a separator is a single segment, and its
/// camelCase form is its lowercase form.
pub proof fn lemma_single_segment(t: Seq<char>)
    requires
        t.len() > 0,
        no_separator(t),
    ensures
        segments(t) == seq![t],
        camel_of(t) == lower_str(t),
{
    lemma_run_len(t, t.len());
    assert(t.take(t.len() as int) == t);
    assert(segments(t.skip(t.len() as int)) == Seq::<Seq<char>>::empty());
    assert(camel_join(segments(t).skip(1), false) == Seq::<char>::empty());
}

/// Converting to camelCase a second time changes nothing exactly when the
/// first result is its own lowercase form. It is not when a later segment
/// begins with a letter: that letter is a capital after the first conversion
/// and a small letter after the second.
pub proof fn lemma_camel_twice(s: Seq<char>)
    requires
        no_separator(camel_of(s)),
    ensures
        camel_of(camel_of(s)) == camel_of(s) <==> camel_of(s).len() == 0 || lower_str(
            camel_of(s),
        ) == camel_of(s),
{
    let once = camel_of(s);
    if once.len() > 0 {
        lemma_single_segment(once);
    } else {
        assert(camel_of(once) =~= once);
    }
}

/// Converting to camelCase twice gives what converting once gives, where the
/// first result holds no separator and is its own lowercase form.
pub proof fn lemma_camel_idempotent(s: Seq<char>)
    requires
        no_separator(camel_of(s)),
        lower_str(camel_of(s)) == camel_of(s),
    ensures
        camel_of(camel_of(s)) == camel_of(s),
{
    lemma_camel_twice(s);
}

/// The parts are non-empty ASCII strings without a separator.
pub open spec fn plain_parts(parts: Seq<Seq<char>>) -> bool {
    forall|k: int|
        0 <= k < parts.len() ==> (#[trigger] parts[k]).len() > 0 && no_separator(parts[k])
            && all_ascii(parts[k])
}

/// The segments of an ASCII string are non-empty ASCII strings without a
/// separator.
pub proof fn lemma_segments_are_plain(s: Seq<char>)
    requires
        all_ascii(s),
    ensures
        plain_parts(segments(s)),
    decreases s.len(),
{
    if s.len() > 0 {
        if s[0] == '_' {
            lemma_segments_are_plain(s.skip(1));
        } else {
            lemma_run_len_bounds(s);
            lemma_segments_are_plain(s.skip(run_len(s) as int));
        }
    }
}

/// Joining plain parts gives an ASCII string without a separator.
pub proof fn lemma_camel_join_is_plain(parts: Seq<Seq<char>>, leading: bool)
    requires
        plain_parts(parts),
    ensures
        no_separator(camel_join(parts, leading)),
        all_ascii(camel_join(parts, leading)),
    decreases parts.len(),
{
    if parts.len() > 0 {
        let first = parts[0];
        lemma_camel_join_is_plain(parts.skip(1), false);
        let head = if leading {
            lower_str(first)
        } else {
            capitalized(first)
        };
        assert(no_separator(head) && all_ascii(head));
    }
}

/// The camelCase form of an ASCII identifier is an ASCII string without a
/// separator.
pub proof fn lemma_camel_of_ascii_is_plain(s: Seq<char>)
    requires
        all_ascii(s),
    ensures
        no_separator(camel_of(s)),
        all_ascii(camel_of(s)),
{
    lemma_segments_are_plain(s);
    lemma_camel_join_is_plain(segments(s), true);
}

/// For an ASCII identifier, converting to camelCase a second time changes
/// nothing exactly when the first result holds no capital letter.
pub proof fn lemma_camel_twice_ascii(s: Seq<char>)
    requires
        all_ascii(s),
    ensures
        camel_of(camel_of(s)) == camel_of(s) <==> no_capitals(camel_of(s)),
{
    let once = camel_of(s);
    lemma_camel_of_ascii_is_plain(s);
    lemma_camel_twice(s);
    if no_capitals(once) {
        assert(lower_str(once) =~= once);
    }
}

} // verus!
