//! Strings as sequences of characters: conversion, comparison and search.

use vstd::prelude::*;
use vstd::utf8::encode_utf8_decode_utf8;

verus! {

/// `pattern` occurs in `text` starting at position `at`.
pub open spec fn occurs_at(text: Seq<char>, pattern: Seq<char>, at: int) -> bool {
    &&& 0 <= at
    &&& at + pattern.len() <= text.len()
    &&& text.subrange(at, at + pattern.len()) == pattern
}

/// `pattern` occurs somewhere in `text` as a contiguous run of characters.
pub open spec fn has_substring(text: Seq<char>, pattern: Seq<char>) -> bool {
    exists|at: int| occurs_at(text, pattern, at)
}

/// The lowercase form of a string, as `str::to_lowercase` of the standard
/// library defines it: a function of the whole string, by the Unicode
/// lowercase mapping.
pub uninterp spec fn lowercase(text: Seq<char>) -> Seq<char>;

/// Whether a character is whitespace, as `char::is_whitespace` of the
/// standard library defines it: the Unicode property `White_Space`.
pub uninterp spec fn is_whitespace(c: char) -> bool;

/// Calls `str::to_lowercase`. Nothing is proved of the result: the contract
/// only gives it the name [`lowercase`].
#[verifier::external_body]
pub(crate) fn to_lowercase(s: &str) -> (lowered: String)
    ensures
        lowered@ == lowercase(s@),
{
    s.to_lowercase()
}

/// Calls `char::is_whitespace`. Nothing is proved of the result: the
/// contract only gives it the name [`is_whitespace`].
#[verifier::external_body]
pub(crate) fn char_is_whitespace(c: char) -> (blank: bool)
    ensures
        blank == is_whitespace(c),
{
    c.is_whitespace()
}

/// The characters of an optional string.
pub open spec fn opt_text(s: Option<String>) -> Option<Seq<char>> {
    match s {
        Some(s) => Some(s@),
        None => None,
    }
}

/// The characters of `s`, in order.
pub fn chars_of(s: &str) -> (out: Vec<char>)
    ensures
        out@ == s@,
{
    let mut out: Vec<char> = Vec::new();
    for c in it: s.chars()
        invariant
            out@ == it.seq().take(it.index()),
            it.seq() == s@,
    {
        out.push(c);
    }
    out
}

/// Whether two strings hold the same characters.
pub fn same_text(a: &str, b: &str) -> (same: bool)
    ensures
        same == (a@ == b@),
{
    let left = a.as_bytes();
    let right = b.as_bytes();
    assert((a@ == b@) == (left@ == right@)) by {
        encode_utf8_decode_utf8(a@);
        encode_utf8_decode_utf8(b@);
    }
    if left.len() != right.len() {
        return false;
    }
    let mut i: usize = 0;
    while i < left.len()
        invariant
            i <= left@.len(),
            left@.len() == right@.len(),
            left@.take(i as int) == right@.take(i as int),
            (a@ == b@) == (left@ == right@),
        decreases left@.len() - i,
    {
        if left[i] != right[i] {
            return false;
        }
        assert(left@.take(i + 1) == left@.take(i as int).push(left@[i as int]));
        assert(right@.take(i + 1) == right@.take(i as int).push(right@[i as int]));
        i += 1;
    }
    assert(left@ == left@.take(i as int));
    assert(right@ == right@.take(i as int));
    true
}

/// Whether `pattern` occurs in `text` at position `at`.
pub fn matches_at(text: &Vec<char>, pattern: &Vec<char>, at: usize) -> (found: bool)
    ensures
        found == occurs_at(text@, pattern@, at as int),
{
    let text_len: usize = text.len();
    if pattern.len() > text_len || at > text_len - pattern.len() {
        return false;
    }
    let mut j: usize = 0;
    while j < pattern.len()
        invariant
            j <= pattern@.len(),
            at + pattern@.len() <= text@.len() == text_len,
            forall|k: int| 0 <= k < j ==> text@[at + k] == pattern@[k],
        decreases pattern@.len() - j,
    {
        if text[at + j] != pattern[j] {
            assert(text@.subrange(at as int, at + pattern@.len())[j as int] != pattern@[j as int]);
            return false;
        }
        j += 1;
    }
    assert(text@.subrange(at as int, at + pattern@.len()) =~= pattern@);
    true
}

/// Whether `pattern` occurs anywhere in `text`.
pub fn contains(text: &Vec<char>, pattern: &Vec<char>) -> (found: bool)
    ensures
        found == has_substring(text@, pattern@),
{
    if pattern.len() > text.len() {
        return false;
    }
    let last: usize = text.len() - pattern.len();
    let mut at: usize = 0;
    loop
        invariant
            last == text@.len() - pattern@.len(),
            at <= last,
            forall|k: int| 0 <= k < at ==> !occurs_at(text@, pattern@, k),
        decreases last - at,
    {
        if matches_at(text, pattern, at) {
            return true;
        }
        if at == last {
            return false;
        }
        at += 1;
    }
}

/// Whether the character `wanted` occurs in `s`.
pub fn contains_char(s: &str, wanted: char) -> (found: bool)
    ensures
        found == s@.contains(wanted),
{
    let mut found = false;
    for c in it: s.chars()
        invariant
            it.seq() == s@,
            found == it.seq().take(it.index()).contains(wanted),
    {
        proof {
            let before = it.seq().take(it.index());
            let after = it.seq().take(it.index() + 1);
            assert(after == before.push(c));
            if before.contains(wanted) {
                let k = choose|k: int| 0 <= k < before.len() && before[k] == wanted;
                assert(after[k] == wanted);
            }
            if c == wanted {
                assert(after[it.index()] == wanted);
            }
        }
        if c == wanted {
            found = true;
        }
    }
    assert(s@.take(s@.len() as int) == s@);
    found
}

/// A text that lacks a character of a pattern does not hold the pattern.
pub proof fn lemma_substring_needs_char(text: Seq<char>, pattern: Seq<char>, c: char)
    requires
        pattern.contains(c),
        !text.contains(c),
    ensures
        !has_substring(text, pattern),
{
    if has_substring(text, pattern) {
        let at = choose|at: int| occurs_at(text, pattern, at);
        let k = choose|k: int| 0 <= k < pattern.len() && pattern[k] == c;
        assert(text.subrange(at, at + pattern.len())[k] == c);
        assert(text[at + k] == c);
    }
}

/// A text in which the first two characters of a pattern never follow each
/// other does not hold the pattern.
pub proof fn lemma_substring_needs_pair(text: Seq<char>, pattern: Seq<char>)
    requires
        pattern.len() >= 2,
        forall|k: int|
            0 <= k && k + 1 < text.len() ==> !(#[trigger] text[k] == pattern[0] && text[k + 1]
                == pattern[1]),
    ensures
        !has_substring(text, pattern),
{
    if has_substring(text, pattern) {
        let at = choose|at: int| occurs_at(text, pattern, at);
        let found = text.subrange(at, at + pattern.len());
        assert(found[0] == text[at]);
        assert(found[1] == text[at + 1]);
    }
}

/// A text that holds a pattern holds each beginning of the pattern.
pub proof fn lemma_substring_of_beginning(text: Seq<char>, beginning: Seq<char>, rest: Seq<char>)
    requires
        has_substring(text, beginning + rest),
    ensures
        has_substring(text, beginning),
{
    let whole = beginning + rest;
    let at = choose|at: int| occurs_at(text, whole, at);
    assert(text.subrange(at, at + beginning.len()) =~= text.subrange(at, at + whole.len()).subrange(
        0,
        beginning.len() as int,
    ));
    assert(whole.subrange(0, beginning.len() as int) =~= beginning);
    assert(occurs_at(text, beginning, at));
}

} // verus!
