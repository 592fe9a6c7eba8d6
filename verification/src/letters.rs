//! Character classes and case mappings.
//!
//! On ASCII the classes and mappings are written out here. Beyond ASCII they
//! are the Unicode tables that the standard library carries; those tables are
//! not restated, only named.

use vstd::prelude::*;

verus! {

/// Whether a character beyond ASCII has the Unicode property `Uppercase`.
pub uninterp spec fn unicode_is_uppercase(c: char) -> bool;

/// Whether a character beyond ASCII has the Unicode property `Lowercase`.
pub uninterp spec fn unicode_is_lowercase(c: char) -> bool;

/// The lowercase mapping of a character beyond ASCII.
pub uninterp spec fn unicode_lowercase(c: char) -> Seq<char>;

/// The uppercase mapping of a character beyond ASCII.
pub uninterp spec fn unicode_uppercase(c: char) -> Seq<char>;

/// The lowercase form of a string that is not pure ASCII. It is a function of
/// the whole string: a capital sigma maps differently at the end of a word.
pub uninterp spec fn unicode_str_lowercase(s: Seq<char>) -> Seq<char>;

pub open spec fn is_ascii(c: char) -> bool {
    c <= '\u{7f}'
}

pub open spec fn all_ascii(s: Seq<char>) -> bool {
    forall|i: int| 0 <= i < s.len() ==> is_ascii(#[trigger] s[i])
}

pub open spec fn is_upper(c: char) -> bool {
    if is_ascii(c) {
        'A' <= c <= 'Z'
    } else {
        unicode_is_uppercase(c)
    }
}

pub open spec fn is_lower(c: char) -> bool {
    if is_ascii(c) {
        'a' <= c <= 'z'
    } else {
        unicode_is_lowercase(c)
    }
}

pub open spec fn is_digit(c: char) -> bool {
    '0' <= c <= '9'
}

pub open spec fn ascii_lower(c: char) -> char {
    if 'A' <= c <= 'Z' {
        ((c as int) + 32) as char
    } else {
        c
    }
}

pub open spec fn ascii_upper(c: char) -> char {
    if 'a' <= c <= 'z' {
        ((c as int) - 32) as char
    } else {
        c
    }
}

/// The lowercase mapping of one character.
pub open spec fn lower_of(c: char) -> Seq<char> {
    if is_ascii(c) {
        seq![ascii_lower(c)]
    } else {
        unicode_lowercase(c)
    }
}

/// The uppercase mapping of one character.
pub open spec fn upper_of(c: char) -> Seq<char> {
    if is_ascii(c) {
        seq![ascii_upper(c)]
    } else {
        unicode_uppercase(c)
    }
}

/// The lowercase form of a string.
pub open spec fn lower_str(s: Seq<char>) -> Seq<char> {
    if all_ascii(s) {
        Seq::new(s.len(), |i: int| ascii_lower(s[i]))
    } else {
        unicode_str_lowercase(s)
    }
}

/// `char::is_uppercase`: on ASCII exactly the letters `A` to `Z`; beyond ASCII
/// the Unicode property, taken on trust from the standard library.
#[verifier::external_body]
pub(crate) fn char_is_uppercase(c: char) -> (r: bool)
    ensures
        is_ascii(c) ==> r == ('A' <= c <= 'Z'),
        !is_ascii(c) ==> r == unicode_is_uppercase(c),
{
    c.is_uppercase()
}

/// `char::is_lowercase`: on ASCII exactly the letters `a` to `z`; beyond ASCII
/// the Unicode property, taken on trust from the standard library.
#[verifier::external_body]
pub(crate) fn char_is_lowercase(c: char) -> (r: bool)
    ensures
        is_ascii(c) ==> r == ('a' <= c <= 'z'),
        !is_ascii(c) ==> r == unicode_is_lowercase(c),
{
    c.is_lowercase()
}

/// `char::to_lowercase`, collected: one or more characters. An ASCII character
/// maps to itself, a capital letter to its small letter; beyond ASCII the
/// mapping is the standard library's.
#[verifier::external_body]
pub(crate) fn char_to_lowercase(c: char) -> (r: Vec<char>)
    ensures
        r@.len() >= 1,
        is_ascii(c) ==> r@ == seq![ascii_lower(c)],
        !is_ascii(c) ==> r@ == unicode_lowercase(c),
{
    c.to_lowercase().collect()
}

/// `char::to_uppercase`, collected: one or more characters. An ASCII character
/// maps to itself, a small letter to its capital letter; beyond ASCII the
/// mapping is the standard library's.
#[verifier::external_body]
pub(crate) fn char_to_uppercase(c: char) -> (r: Vec<char>)
    ensures
        r@.len() >= 1,
        is_ascii(c) ==> r@ == seq![ascii_upper(c)],
        !is_ascii(c) ==> r@ == unicode_uppercase(c),
{
    c.to_uppercase().collect()
}

/// `str::to_lowercase` on the string that the characters spell. A pure ASCII
/// string is mapped letter by letter; any other string is mapped by the
/// standard library as a whole.
#[verifier::external_body]
pub(crate) fn str_to_lowercase(chars: &[char]) -> (r: Vec<char>)
    ensures
        all_ascii(chars@) ==> r@ == Seq::new(chars@.len(), |i: int| ascii_lower(chars@[i])),
        !all_ascii(chars@) ==> r@ == unicode_str_lowercase(chars@),
{
    let s: String = chars.iter().collect();
    s.to_lowercase().chars().collect()
}

/// `String::from_iter` over the characters: the string that they spell.
#[verifier::external_body]
pub(crate) fn string_of(chars: &Vec<char>) -> (r: String)
    ensures
        r@ == chars@,
{
    chars.iter().collect()
}

/// The characters of a string, in order.
pub(crate) fn chars_of(s: &str) -> (r: Vec<char>)
    ensures
        r@ == s@,
{
    let mut out: Vec<char> = Vec::new();
    for c in it: s.chars()
        invariant
            out@ == it.seq().take(it.index() as int),
            it.seq() == s@,
    {
        out.push(c);
    }
    out
}

/// Whether `c` is one of the ASCII digits `0` to `9`.
pub(crate) fn is_ascii_digit(c: char) -> (r: bool)
    ensures
        r == is_digit(c),
{
    '0' <= c && c <= '9'
}

} // verus!
