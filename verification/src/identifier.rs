//! Conversion of a single identifier between lowerCamelCase and snake_case.

use vstd::prelude::*;
use crate::identifier_laws::{lemma_camel_of_ascii_is_plain, lemma_snake_has_no_capitals};
use crate::letters::{
    all_ascii, char_is_lowercase, char_is_uppercase, char_to_lowercase, char_to_uppercase,
    chars_of, is_ascii_digit, is_digit, is_lower, is_upper, lower_of, lower_str,
    str_to_lowercase, string_of, upper_of,
};

verus! {

pub open spec fn is_lower_or_digit(c: char) -> bool {
    is_lower(c) || is_digit(c)
}

/// Whether a separator goes in front of the capital letter at `i`, where `out`
/// is what the characters before `i` have produced: the letter follows a small
/// letter or a digit, or it follows a capital and is followed by a small
/// letter; and `out` is neither empty nor ends in a separator already.
pub open spec fn separator_before(s: Seq<char>, i: int, out: Seq<char>) -> bool {
    &&& 0 < i < s.len()
    &&& out.len() > 0
    &&& (is_lower_or_digit(s[i - 1]) || (is_upper(s[i - 1]) && i + 1 < s.len() && is_lower(
        s[i + 1],
    )))
    &&& out.last() != '_'
}

/// The output after the character at `i`, given the output `out` before it.
pub open spec fn snake_step(s: Seq<char>, i: int, out: Seq<char>) -> Seq<char> {
    if is_upper(s[i]) {
        (if separator_before(s, i, out) {
            out.push('_')
        } else {
            out
        }) + lower_of(s[i])
    } else {
        out.push(s[i])
    }
}

/// The output after the first `n` characters of `s`.
pub open spec fn snake_prefix(s: Seq<char>, n: nat) -> Seq<char>
    decreases n,
{
    if n == 0 {
        Seq::empty()
    } else {
        snake_step(s, n - 1, snake_prefix(s, (n - 1) as nat))
    }
}

/// The snake_case form of a lowerCamelCase identifier.
pub open spec fn snake_of(s: Seq<char>) -> Seq<char> {
    snake_prefix(s, s.len())
}

/// The length of the longest prefix of `s` that holds no separator.
pub open spec fn run_len(s: Seq<char>) -> nat
    decreases s.len(),
{
    if s.len() == 0 || s[0] == '_' {
        0
    } else {
        1 + run_len(s.skip(1))
    }
}

/// The non-empty pieces of `s` between separators, in order.
pub open spec fn segments(s: Seq<char>) -> Seq<Seq<char>>
    decreases s.len(),
{
    if s.len() == 0 {
        Seq::empty()
    } else if s[0] == '_' {
        segments(s.skip(1))
    } else {
        proof {
            lemma_run_len_bounds(s);
        }
        seq![s.take(run_len(s) as int)] + segments(s.skip(run_len(s) as int))
    }
}

/// A segment with its first character in upper case and the rest in lower case.
pub open spec fn capitalized(segment: Seq<char>) -> Seq<char> {
    upper_of(segment[0]) + lower_str(segment.skip(1))
}

/// The segments joined without a separator: the leading one in lower case,
/// each other one capitalized. `leading` says whether `parts[0]` leads.
pub open spec fn camel_join(parts: Seq<Seq<char>>, leading: bool) -> Seq<char>
    decreases parts.len(),
{
    if parts.len() == 0 {
        Seq::empty()
    } else {
        (if leading {
            lower_str(parts[0])
        } else {
            capitalized(parts[0])
        }) + camel_join(parts.skip(1), false)
    }
}

/// The lowerCamelCase form of a snake_case identifier.
pub open spec fn camel_of(s: Seq<char>) -> Seq<char> {
    camel_join(segments(s), true)
}

/// No character of `s` is a capital letter.
pub open spec fn no_capitals(s: Seq<char>) -> bool {
    forall|i: int| 0 <= i < s.len() ==> !is_upper(#[trigger] s[i])
}

/// No character of `s` is the separator.
pub open spec fn no_separator(s: Seq<char>) -> bool {
    forall|i: int| 0 <= i < s.len() ==> #[trigger] s[i] != '_'
}

/// Every capital letter of `s` has a lowercase mapping free of capital
/// letters. All ASCII letters do; a few letters beyond ASCII are capitals
/// that map to themselves.
pub open spec fn capitals_fold(s: Seq<char>) -> bool {
    forall|i: int| 0 <= i < s.len() && is_upper(#[trigger] s[i]) ==> no_capitals(lower_of(s[i]))
}

/// A run of `k` characters without a separator, which ends the string or is
/// followed by a separator, is the longest such prefix.
pub proof fn lemma_run_len(s: Seq<char>, k: nat)
    requires
        k <= s.len(),
        forall|t: int| 0 <= t < k ==> s[t] != '_',
        k == s.len() || s[k as int] == '_',
    ensures
        run_len(s) == k,
    decreases k,
{
    if k > 0 {
        let rest = s.skip(1);
        assert forall|t: int| 0 <= t < k - 1 implies rest[t] != '_' by {
            assert(rest[t] == s[t + 1]);
        }
        lemma_run_len(rest, (k - 1) as nat);
    }
}

/// The longest prefix without a separator is no longer than the string,
/// holds no separator, and ends the string or stands before a separator.
pub proof fn lemma_run_len_bounds(s: Seq<char>)
    ensures
        run_len(s) <= s.len(),
        no_separator(s.take(run_len(s) as int)),
        run_len(s) == s.len() || s[run_len(s) as int] == '_',
    decreases s.len(),
{
    if s.len() > 0 && s[0] != '_' {
        let rest = s.skip(1);
        lemma_run_len_bounds(rest);
        let n = run_len(s);
        assert forall|i: int| 0 <= i < n implies #[trigger] s.take(n as int)[i] != '_' by {
            if i > 0 {
                assert(s[i] == rest.take(run_len(rest) as int)[i - 1]);
            }
        }
    }
}

/// Converts a lowerCamelCase identifier to snake_case. The result holds no
/// capital letter, unless the identifier holds a capital whose lowercase
/// mapping holds one.
pub fn lower_camel_to_snake(input: &str) -> (result: String)
    ensures
        result@ == snake_of(input@),
        capitals_fold(input@) ==> no_capitals(result@),
{
    let chars = chars_of(input);
    let n = chars.len();
    let mut out: Vec<char> = Vec::new();
    let mut prev_is_upper = false;
    let mut prev_is_lower_or_digit = false;
    let mut i: usize = 0;
    while i < n
        invariant
            i <= n,
            n == chars@.len(),
            out@ == snake_prefix(chars@, i as nat),
            prev_is_upper == (i > 0 && is_upper(chars@[i - 1])),
            prev_is_lower_or_digit == (i > 0 && is_lower_or_digit(chars@[i - 1])),
        decreases n - i,
    {
        let c = chars[i];
        let upper = char_is_uppercase(c);
        let lower = char_is_lowercase(c);
        let digit = is_ascii_digit(c);
        let next_is_lower = i + 1 < n && char_is_lowercase(chars[i + 1]);
        if upper {
            if out.len() > 0 && (prev_is_lower_or_digit || (prev_is_upper && next_is_lower))
                && out[out.len() - 1] != '_' {
                out.push('_');
            }
            let mut folded = char_to_lowercase(c);
            out.append(&mut folded);
        } else {
            out.push(c);
        }
        prev_is_upper = upper;
        prev_is_lower_or_digit = lower || digit;
        i += 1;
    }
    proof {
        if capitals_fold(chars@) {
            lemma_snake_has_no_capitals(chars@);
        }
    }
    string_of(&out)
}

/// Converts a snake_case identifier to lowerCamelCase. The result of an
/// ASCII identifier holds no separator.
pub fn snake_to_lower_camel(input: &str) -> (result: String)
    ensures
        result@ == camel_of(input@),
        all_ascii(input@) ==> no_separator(result@),
{
    let chars = chars_of(input);
    let n = chars.len();
    let mut out: Vec<char> = Vec::new();
    let mut leading = true;
    let mut i: usize = 0;
    assert(chars@.skip(0) == chars@);
    while i < n
        invariant
            i <= n,
            n == chars@.len(),
            camel_of(chars@) == out@ + camel_join(segments(chars@.skip(i as int)), leading),
        decreases n - i,
    {
        let ghost rest = chars@.skip(i as int);
        if chars[i] == '_' {
            proof {
                assert(rest.skip(1) == chars@.skip(i + 1));
            }
            i += 1;
        } else {
            let start = i;
            i += 1;
            while i < n && chars[i] != '_'
                invariant
                    start < i <= n,
                    n == chars@.len(),
                    forall|t: int| start <= t < i ==> chars@[t] != '_',
                decreases n - i,
            {
                i += 1;
            }
            let ghost k = (i - start) as nat;
            proof {
                assert forall|t: int| 0 <= t < k implies rest[t] != '_' by {
                    assert(rest[t] == chars@[start + t]);
                }
                lemma_run_len(rest, k);
                assert(rest.skip(k as int) == chars@.skip(i as int));
                assert(rest.take(k as int) == chars@.subrange(start as int, i as int));
                assert(segments(rest).skip(1) == segments(rest.skip(k as int)));
            }
            let segment = vstd::slice::slice_subrange(chars.as_slice(), start, i);
            if leading {
                let mut piece = str_to_lowercase(segment);
                out.append(&mut piece);
                leading = false;
            } else {
                let mut head = char_to_uppercase(chars[start]);
                out.append(&mut head);
                let tail = vstd::slice::slice_subrange(chars.as_slice(), start + 1, i);
                proof {
                    assert(tail@ == segment@.skip(1));
                }
                let mut piece = str_to_lowercase(tail);
                out.append(&mut piece);
            }
        }
    }
    proof {
        if all_ascii(chars@) {
            lemma_camel_of_ascii_is_plain(chars@);
        }
    }
    string_of(&out)
}

} // verus!
