//! The properties derived from a string.
//!
//! Where a property depends on which characters are whitespace, the
//! characters are classified first and the property is computed from the
//! classification, so that the computation can be stated, and checked, on
//! its own.

use vstd::prelude::*;
use crate::models::frequency::{frequencies, FrequencyMap};
use crate::models::string::{PropertiesModel, StringProperties};
use crate::utils::digest::{compute_sha256, content_hash};
use crate::utils::text::{char_is_whitespace, chars_of, is_whitespace, lowercase, to_lowercase};

verus! {

/// For each character of `s`, whether it is whitespace.
pub open spec fn whitespace_mask(s: Seq<char>) -> Seq<bool> {
    s.map_values(|c: char| is_whitespace(c))
}

/// A word starts at position `at`: the position is no gap, and is the first
/// position or follows a gap.
pub open spec fn starts_word(gaps: Seq<bool>, at: int) -> bool {
    !gaps[at] && (at == 0 || gaps[at - 1])
}

/// The number of maximal runs of positions that are no gaps.
pub open spec fn run_count(gaps: Seq<bool>) -> nat
    decreases gaps.len(),
{
    if gaps.len() == 0 {
        0
    } else {
        run_count(gaps.drop_last()) + if starts_word(gaps, gaps.len() - 1) {
            1nat
        } else {
            0nat
        }
    }
}

/// Position `at` is marked as a gap.
pub open spec fn is_gap(gaps: Seq<bool>, at: int) -> bool {
    0 <= at < gaps.len() && gaps[at]
}

/// The characters of `chars` at the positions that `gaps` does not mark.
pub open spec fn without_gaps(chars: Seq<char>, gaps: Seq<bool>) -> Seq<char>
    decreases chars.len(),
{
    if chars.len() == 0 {
        Seq::empty()
    } else if is_gap(gaps, chars.len() - 1) {
        without_gaps(chars.drop_last(), gaps)
    } else {
        without_gaps(chars.drop_last(), gaps).push(chars.last())
    }
}

/// `chars` reads the same in both directions.
pub open spec fn mirrored(chars: Seq<char>) -> bool {
    chars == chars.reverse()
}

/// The number of words of `s`: maximal runs of characters that are no
/// whitespace.
pub open spec fn word_count(s: Seq<char>) -> nat {
    run_count(whitespace_mask(s))
}

/// `s` is a palindrome: its lowercase form without whitespace reads the same
/// in both directions.
pub open spec fn is_palindrome(s: Seq<char>) -> bool {
    mirrored(lowercase(s).filter(|c: char| !is_whitespace(c)))
}

/// The properties of the text `s`.
pub open spec fn analysis(s: Seq<char>) -> PropertiesModel {
    PropertiesModel {
        length: vstd::utf8::encode_utf8(s).len(),
        is_palindrome: is_palindrome(s),
        unique_characters: s.to_set().len(),
        word_count: word_count(s),
        sha256_hash: content_hash(s),
        character_frequency_map: frequencies(s),
    }
}

/// There are no more runs than positions.
proof fn lemma_run_count_bound(gaps: Seq<bool>)
    ensures
        run_count(gaps) <= gaps.len(),
    decreases gaps.len(),
{
    if gaps.len() > 0 {
        lemma_run_count_bound(gaps.drop_last());
    }
}

/// Dropping the positions that the whitespace mask marks is filtering out
/// the whitespace.
proof fn lemma_without_whitespace(s: Seq<char>, upto: int)
    requires
        0 <= upto <= s.len(),
    ensures
        without_gaps(s.take(upto), whitespace_mask(s)) == s.take(upto).filter(
            |c: char| !is_whitespace(c),
        ),
    decreases upto,
{
    reveal(Seq::filter);
    if upto > 0 {
        lemma_without_whitespace(s, upto - 1);
        assert(s.take(upto).drop_last() == s.take(upto - 1));
    }
}

/// Classifies each character as whitespace or not.
pub fn whitespace_flags(chars: &Vec<char>) -> (flags: Vec<bool>)
    ensures
        flags@ == whitespace_mask(chars@),
{
    let mut flags: Vec<bool> = Vec::new();
    let mut i: usize = 0;
    while i < chars.len()
        invariant
            i <= chars@.len(),
            flags@ == whitespace_mask(chars@.take(i as int)),
        decreases chars@.len() - i,
    {
        flags.push(char_is_whitespace(chars[i]));
        assert(flags@ == whitespace_mask(chars@.take(i + 1)));
        i += 1;
    }
    assert(chars@.take(i as int) == chars@);
    flags
}

/// Counts the maximal runs of positions that are no gaps.
pub fn count_runs(gaps: &Vec<bool>) -> (count: usize)
    ensures
        count == run_count(gaps@),
{
    let mut count: usize = 0;
    let mut in_gap = true;
    let mut i: usize = 0;
    while i < gaps.len()
        invariant
            i <= gaps@.len(),
            count == run_count(gaps@.take(i as int)),
            count <= i,
            in_gap == (i == 0 || gaps@[i - 1]),
        decreases gaps@.len() - i,
    {
        let ghost seen = gaps@.take(i + 1);
        proof {
            assert(seen.drop_last() == gaps@.take(i as int));
            assert(starts_word(seen, i as int) == (!gaps@[i as int] && in_gap));
        }
        if !gaps[i] && in_gap {
            count += 1;
        }
        in_gap = gaps[i];
        i += 1;
    }
    assert(gaps@.take(i as int) == gaps@);
    count
}

/// Keeps the characters at the positions that `gaps` does not mark.
pub fn remove_gaps(chars: &Vec<char>, gaps: &Vec<bool>) -> (kept: Vec<char>)
    ensures
        kept@ == without_gaps(chars@, gaps@),
{
    let mut kept: Vec<char> = Vec::new();
    let mut i: usize = 0;
    while i < chars.len()
        invariant
            i <= chars@.len(),
            kept@ == without_gaps(chars@.take(i as int), gaps@),
        decreases chars@.len() - i,
    {
        proof {
            assert(chars@.take(i + 1).drop_last() == chars@.take(i as int));
        }
        if !(i < gaps.len() && gaps[i]) {
            kept.push(chars[i]);
        }
        i += 1;
    }
    assert(chars@.take(i as int) == chars@);
    kept
}

/// Whether `chars` reads the same in both directions.
pub fn is_mirrored(chars: &Vec<char>) -> (same: bool)
    ensures
        same == mirrored(chars@),
{
    let n = chars.len();
    let mut i: usize = 0;
    while i < n
        invariant
            n == chars@.len(),
            i <= n,
            forall|k: int| 0 <= k < i ==> #[trigger] chars@[k] == chars@[n - 1 - k],
        decreases n - i,
    {
        if chars[i] != chars[n - 1 - i] {
            assert(chars@.reverse()[i as int] != chars@[i as int]);
            return false;
        }
        i += 1;
    }
    assert(chars@ =~= chars@.reverse());
    true
}

/// Whether `s` is a palindrome, ignoring case and whitespace.
pub fn check_palindrome(s: &str) -> (palindrome: bool)
    ensures
        palindrome == is_palindrome(s@),
{
    let lowered = to_lowercase(s);
    let chars = chars_of(lowered.as_str());
    let gaps = whitespace_flags(&chars);
    let cleaned = remove_gaps(&chars, &gaps);
    proof {
        lemma_without_whitespace(chars@, chars@.len() as int);
        assert(chars@.take(chars@.len() as int) == chars@);
    }
    is_mirrored(&cleaned)
}

/// The number of distinct characters of `s`.
pub fn count_unique_characters(s: &str) -> (count: usize)
    ensures
        count == s@.to_set().len(),
{
    let map = build_frequency_map(s);
    assert(map@.dom() =~= s@.to_set());
    map.len()
}

/// The number of words of `s`.
pub fn count_words(s: &str) -> (count: usize)
    ensures
        count == word_count(s@),
{
    let chars = chars_of(s);
    let gaps = whitespace_flags(&chars);
    count_runs(&gaps)
}

/// How often each character occurs in `s`.
pub fn build_frequency_map(s: &str) -> (map: FrequencyMap)
    ensures
        map@ == frequencies(s@),
{
    let chars = chars_of(s);
    FrequencyMap::build(&chars)
}

/// Derives the properties of `value`.
pub fn analyze_string(value: &str) -> (properties: StringProperties)
    ensures
        properties@ == analysis(value@),
{
    let length = value.as_bytes().len();
    let is_palindrome = check_palindrome(value);
    let unique_characters = count_unique_characters(value);
    let word_count = count_words(value);
    let sha256_hash = compute_sha256(value);
    let character_frequency_map = build_frequency_map(value);

    StringProperties {
        length,
        is_palindrome,
        unique_characters,
        word_count,
        sha256_hash,
        character_frequency_map,
    }
}

} // verus!
