//! Reading filters from a free-text phrase.
//!
//! The phrase is lower-cased and searched for a fixed set of patterns. Each
//! pattern sets one field of the filter set; where two patterns set the same
//! field, the one that comes later in the list below wins:
//!
//! 1. `palindromic` or `palindrome`: the string is a palindrome.
//! 2. `single word`: the word count is one.
//! 3. `longer than N`: the length is at least `N + 1`.
//! 4. `shorter than N`: the length is at most `N - 1`.
//! 5. `first vowel`: the string contains `a`. This is a fixed convention,
//!    not a search for vowels.
//! 6. `letter c`, for a lowercase letter `c`: the string contains `c`.
//! 7. `containing c` or `containing the letter c`: the string contains `c`.
//!
//! Patterns 3, 4, 6 and 7 are regular expressions and are matched by the
//! `regex` crate. A regular expression is only tried on a phrase that holds
//! the words it begins with.

use regex::Regex;
use vstd::prelude::*;
use crate::models::string::{FilterField, Filters};
use crate::utils::number::{
    decimal_digits, is_digit, lemma_decimal_round_trip, parse_decimal, parse_unsigned,
};
use crate::utils::text::{
    chars_of, contains, has_substring, lemma_substring_needs_char, lemma_substring_needs_pair,
    lemma_substring_of_beginning, lowercase, occurs_at, opt_text, to_lowercase,
};

verus! {

/// The text of the first capture group in the leftmost match that the
/// `regex` crate finds for `pattern` in `text`. `None` where `pattern` is no
/// regular expression, where nothing matches, and where the match does not
/// involve the group.
pub uninterp spec fn first_capture(pattern: Seq<char>, text: Seq<char>) -> Option<Seq<char>>;

/// Compiles `pattern` with `Regex::new`, searches `text` with
/// `Regex::captures`, and takes the text of group 1 with `Captures::get` and
/// `Match::as_str`. A pattern that does not compile counts as no match.
/// Nothing is proved of the result: the contract only gives it the name
/// [`first_capture`].
#[verifier::external_body]
fn capture(pattern: &str, text: &str) -> (found: Option<String>)
    ensures
        opt_text(found) == first_capture(pattern@, text@),
{
    Regex::new(pattern).ok().and_then(|re| re.captures(text)).and_then(|caps| caps.get(1)).map(
        |group| group.as_str().to_string(),
    )
}

/// Why a phrase gave no filter set.
#[derive(Debug, PartialEq, Eq)]
pub enum InterpretError {
    /// A pattern matched, but the number in it gives no valid bound.
    InvalidValue { field: FilterField, input: String },
    /// The phrase asks for a minimum length above the maximum length.
    ConflictingFilters,
    /// No pattern matched.
    Unparseable,
}

/// What an [`InterpretError`] stands for.
pub enum InterpretFailure {
    InvalidValue { field: FilterField, input: Seq<char> },
    ConflictingFilters,
    Unparseable,
}

impl View for InterpretError {
    type V = InterpretFailure;

    open spec fn view(&self) -> InterpretFailure {
        match self {
            InterpretError::InvalidValue { field, input } => InterpretFailure::InvalidValue {
                field: *field,
                input: input@,
            },
            InterpretError::ConflictingFilters => InterpretFailure::ConflictingFilters,
            InterpretError::Unparseable => InterpretFailure::Unparseable,
        }
    }
}

impl InterpretFailure {
    /// The text that describes the failure to a user.
    pub open spec fn message(self) -> Seq<char> {
        match self {
            InterpretFailure::InvalidValue { field, input } => "Invalid value for "@
                + field.spec_name() + ": "@ + input,
            InterpretFailure::ConflictingFilters => "Conflicting filters: min_length > max_length"@,
            InterpretFailure::Unparseable => "Unable to parse natural language query"@,
        }
    }
}

impl InterpretError {
    /// The text that describes the failure to a user.
    pub fn message(&self) -> (text: String)
        ensures
            text@ == self@.message(),
    {
        match self {
            InterpretError::InvalidValue { field, input } => {
                let mut text = String::from_str("Invalid value for ");
                text.append(field.name());
                text.append(": ");
                text.append(input.as_str());
                text
            },
            InterpretError::ConflictingFilters => String::from_str(
                "Conflicting filters: min_length > max_length",
            ),
            InterpretError::Unparseable => String::from_str(
                "Unable to parse natural language query",
            ),
        }
    }
}

/// What the regular expressions captured in a phrase. A field is `None`
/// where its pattern was not found.
#[derive(Debug)]
pub struct PhraseMatches {
    /// The digits after `longer than`.
    pub longer_than: Option<String>,
    /// The digits after `shorter than`.
    pub shorter_than: Option<String>,
    /// The letter after `letter`.
    pub letter: Option<String>,
    /// The letter after `containing` or `containing the letter`.
    pub containing: Option<String>,
}

/// What a [`PhraseMatches`] stands for.
pub struct PhraseCaptures {
    pub longer_than: Option<Seq<char>>,
    pub shorter_than: Option<Seq<char>>,
    pub letter: Option<Seq<char>>,
    pub containing: Option<Seq<char>>,
}

impl View for PhraseMatches {
    type V = PhraseCaptures;

    open spec fn view(&self) -> PhraseCaptures {
        PhraseCaptures {
            longer_than: opt_text(self.longer_than),
            shorter_than: opt_text(self.shorter_than),
            letter: opt_text(self.letter),
            containing: opt_text(self.containing),
        }
    }
}

impl PhraseCaptures {
    /// Nothing was captured.
    pub open spec fn empty() -> PhraseCaptures {
        PhraseCaptures { longer_than: None, shorter_than: None, letter: None, containing: None }
    }
}

/// What `pattern` captures in `text`, provided that `text` holds `opening`,
/// the words that the pattern begins with.
pub open spec fn gated_capture(text: Seq<char>, opening: Seq<char>, pattern: Seq<char>) -> Option<
    Seq<char>,
> {
    if has_substring(text, opening) {
        first_capture(pattern, text)
    } else {
        None
    }
}

/// What the four regular expressions capture in the lower-cased phrase.
pub open spec fn captures_in(lowered: Seq<char>) -> PhraseCaptures {
    PhraseCaptures {
        longer_than: gated_capture(lowered, "longer than "@, "longer than (\\d+)"@),
        shorter_than: gated_capture(lowered, "shorter than "@, "shorter than (\\d+)"@),
        letter: gated_capture(lowered, "letter "@, "letter ([a-z])"@),
        containing: gated_capture(lowered, "containing "@, "containing (?:the letter )?([a-z])"@),
    }
}

/// The number that a capture denotes, if it denotes one that fits a length.
pub open spec fn captured_number(capture: Option<Seq<char>>) -> Option<nat> {
    match capture {
        Some(digits) => parse_unsigned(digits, usize::MAX as nat),
        None => None,
    }
}

/// The first character of a capture, if it has one.
pub open spec fn captured_char(capture: Option<Seq<char>>) -> Option<char> {
    match capture {
        Some(text) => if text.len() > 0 {
            Some(text[0])
        } else {
            None
        },
        None => None,
    }
}

/// Pattern 1: the phrase speaks of palindromes.
pub open spec fn read_is_palindrome(lowered: Seq<char>) -> Option<bool> {
    if has_substring(lowered, "palindromic"@) || has_substring(lowered, "palindrome"@) {
        Some(true)
    } else {
        None
    }
}

/// Pattern 2: the phrase speaks of a single word.
pub open spec fn read_word_count(lowered: Seq<char>) -> Option<usize> {
    if has_substring(lowered, "single word"@) {
        Some(1usize)
    } else {
        None
    }
}

/// Pattern 3: `longer than N` asks for a length of at least `N + 1`.
pub open spec fn read_min_length(found: PhraseCaptures) -> Option<usize> {
    match captured_number(found.longer_than) {
        Some(n) => if n < usize::MAX {
            Some((n + 1) as usize)
        } else {
            None
        },
        None => None,
    }
}

/// Pattern 4: `shorter than N` asks for a length of at most `N - 1`.
pub open spec fn read_max_length(found: PhraseCaptures) -> Option<usize> {
    match captured_number(found.shorter_than) {
        Some(n) => if n >= 1 {
            Some((n - 1) as usize)
        } else {
            None
        },
        None => None,
    }
}

/// Patterns 5 to 7: the character that the string is to contain. Pattern 7
/// overrides pattern 6, which overrides pattern 5.
pub open spec fn read_contains_character(lowered: Seq<char>, found: PhraseCaptures) -> Option<char> {
    if captured_char(found.containing) is Some {
        captured_char(found.containing)
    } else if captured_char(found.letter) is Some {
        captured_char(found.letter)
    } else if has_substring(lowered, "first vowel"@) {
        Some('a')
    } else {
        None
    }
}

/// The filter set that the patterns give, before it is checked.
pub open spec fn read_filters(lowered: Seq<char>, found: PhraseCaptures) -> Filters {
    Filters {
        is_palindrome: read_is_palindrome(lowered),
        min_length: read_min_length(found),
        max_length: read_max_length(found),
        word_count: read_word_count(lowered),
        contains_character: read_contains_character(lowered, found),
    }
}

/// What a lower-cased phrase means, given what the regular expressions
/// captured in it.
///
/// `longer than N` with the largest length as `N`, and `shorter than 0`,
/// ask for a bound that is no length: they are refused, the first before the
/// second. Then a minimum above the maximum is refused, and then a phrase in
/// which nothing was recognised.
pub open spec fn interpret(lowered: Seq<char>, found: PhraseCaptures) -> Result<
    Filters,
    InterpretFailure,
> {
    let filters = read_filters(lowered, found);
    if captured_number(found.longer_than) == Some(usize::MAX as nat) {
        Err(
            InterpretFailure::InvalidValue {
                field: FilterField::MinLength,
                input: found.longer_than->0,
            },
        )
    } else if captured_number(found.shorter_than) == Some(0nat) {
        Err(
            InterpretFailure::InvalidValue {
                field: FilterField::MaxLength,
                input: found.shorter_than->0,
            },
        )
    } else if filters.bounds_conflict() {
        Err(InterpretFailure::ConflictingFilters)
    } else if filters.is_blank() {
        Err(InterpretFailure::Unparseable)
    } else {
        Ok(filters)
    }
}

/// What a phrase means: the meaning of its lowercase form, with what the
/// regular expressions capture in that form.
pub open spec fn interpretation(phrase: Seq<char>) -> Result<Filters, InterpretFailure> {
    interpret(lowercase(phrase), captures_in(lowercase(phrase)))
}

/// The filter set or the failure that `outcome` stands for.
pub open spec fn outcome_model(outcome: Result<Filters, InterpretError>) -> Result<
    Filters,
    InterpretFailure,
> {
    match outcome {
        Ok(filters) => Ok(filters),
        Err(e) => Err(e@),
    }
}

/// Looks for `pattern` in `lowered`, if `lowered` holds `opening`.
fn gated(lowered: &str, chars: &Vec<char>, opening: &str, pattern: &str) -> (found: Option<String>)
    requires
        chars@ == lowered@,
    ensures
        opt_text(found) == gated_capture(lowered@, opening@, pattern@),
{
    let opening_chars = chars_of(opening);
    if contains(chars, &opening_chars) {
        capture(pattern, lowered)
    } else {
        None
    }
}

/// Matches the four regular expressions against the lower-cased phrase.
pub fn find_matches(lowered: &str) -> (found: PhraseMatches)
    ensures
        found@ == captures_in(lowered@),
{
    let chars = chars_of(lowered);
    PhraseMatches {
        longer_than: gated(lowered, &chars, "longer than ", "longer than (\\d+)"),
        shorter_than: gated(lowered, &chars, "shorter than ", "shorter than (\\d+)"),
        letter: gated(lowered, &chars, "letter ", "letter ([a-z])"),
        containing: gated(
            lowered,
            &chars,
            "containing ",
            "containing (?:the letter )?([a-z])",
        ),
    }
}

/// Whether the phrase holds the keyword.
fn mentions(chars: &Vec<char>, keyword: &str) -> (found: bool)
    ensures
        found == has_substring(chars@, keyword@),
{
    let keyword_chars = chars_of(keyword);
    contains(chars, &keyword_chars)
}

/// The number that a capture denotes.
fn number_in(capture: &Option<String>) -> (number: Option<usize>)
    ensures
        number is Some <==> captured_number(opt_text(*capture)) is Some,
        number matches Some(n) ==> captured_number(opt_text(*capture)) == Some(n as nat),
{
    match capture {
        Some(digits) => match parse_decimal(digits.as_str(), usize::MAX as u64) {
            Some(n) => Some(n as usize),
            None => None,
        },
        None => None,
    }
}

/// The first character of a capture.
fn char_in(capture: &Option<String>) -> (first: Option<char>)
    ensures
        first == captured_char(opt_text(*capture)),
{
    match capture {
        Some(text) => {
            let text = text.as_str();
            if text.unicode_len() > 0 {
                Some(text.get_char(0))
            } else {
                None
            }
        },
        None => None,
    }
}

/// The filter set that a lower-cased phrase asks for, given what the regular
/// expressions captured in it.
pub fn apply_rules(lowered: &str, found: &PhraseMatches) -> (outcome: Result<
    Filters,
    InterpretError,
>)
    ensures
        outcome_model(outcome) == interpret(lowered@, found@),
{
    let chars = chars_of(lowered);
    let mut filters = Filters::default();

    if mentions(&chars, "palindromic") || mentions(&chars, "palindrome") {
        filters.is_palindrome = Some(true);
    }
    if mentions(&chars, "single word") {
        filters.word_count = Some(1);
    }
    if let Some(n) = number_in(&found.longer_than) {
        if n == usize::MAX {
            return Err(
                InterpretError::InvalidValue {
                    field: FilterField::MinLength,
                    input: copy_of(&found.longer_than),
                },
            );
        }
        filters.min_length = Some(n + 1);
    }
    if let Some(n) = number_in(&found.shorter_than) {
        if n == 0 {
            return Err(
                InterpretError::InvalidValue {
                    field: FilterField::MaxLength,
                    input: copy_of(&found.shorter_than),
                },
            );
        }
        filters.max_length = Some(n - 1);
    }
    if mentions(&chars, "first vowel") {
        filters.contains_character = Some('a');
    }
    if let Some(c) = char_in(&found.letter) {
        filters.contains_character = Some(c);
    }
    if let Some(c) = char_in(&found.containing) {
        filters.contains_character = Some(c);
    }
    if let (Some(min), Some(max)) = (filters.min_length, filters.max_length) {
        if min > max {
            return Err(InterpretError::ConflictingFilters);
        }
    }
    if filters.is_palindrome.is_none() && filters.min_length.is_none()
        && filters.max_length.is_none() && filters.word_count.is_none()
        && filters.contains_character.is_none() {
        return Err(InterpretError::Unparseable);
    }
    Ok(filters)
}

/// The text of a capture that is present.
fn copy_of(capture: &Option<String>) -> (text: String)
    requires
        capture is Some,
    ensures
        text@ == opt_text(*capture)->0,
{
    match capture {
        Some(text) => text.clone(),
        None => String::new(),
    }
}

/// Reads the filters that a free-text phrase asks for, and hands the phrase
/// back with them.
pub fn parse_natural_language(query: &str) -> (outcome: Result<(Filters, String), InterpretError>)
    ensures
        match outcome {
            Ok((filters, original)) => interpretation(query@) == Ok::<Filters, InterpretFailure>(
                filters,
            ) && original@ == query@,
            Err(e) => interpretation(query@) == Err::<Filters, InterpretFailure>(e@),
        },
{
    let original = String::from_str(query);
    let lowered = to_lowercase(query);
    let found = find_matches(lowered.as_str());
    match apply_rules(lowered.as_str(), &found) {
        Ok(filters) => Ok((filters, original)),
        Err(e) => Err(e),
    }
}

/// The lower-cased phrase holds one of the words that the patterns look for.
pub open spec fn mentions_keyword(lowered: Seq<char>) -> bool {
    ||| has_substring(lowered, "palindromic"@)
    ||| has_substring(lowered, "palindrome"@)
    ||| has_substring(lowered, "single word"@)
    ||| has_substring(lowered, "longer than"@)
    ||| has_substring(lowered, "shorter than"@)
    ||| has_substring(lowered, "first vowel"@)
    ||| has_substring(lowered, "letter"@)
    ||| has_substring(lowered, "containing"@)
}

/// A phrase whose lowercase form holds none of the words that the patterns
/// look for is unparseable.
pub proof fn law_no_keyword(phrase: Seq<char>)
    requires
        !mentions_keyword(lowercase(phrase)),
    ensures
        interpretation(phrase) == Err::<Filters, InterpretFailure>(InterpretFailure::Unparseable),
{
    let lowered = lowercase(phrase);
    reveal_strlit("longer than ");
    reveal_strlit("longer than");
    reveal_strlit("shorter than ");
    reveal_strlit("shorter than");
    reveal_strlit("letter ");
    reveal_strlit("letter");
    reveal_strlit("containing ");
    reveal_strlit("containing");
    let space = seq![' '];
    assert("longer than "@ =~= "longer than"@ + space);
    assert("shorter than "@ =~= "shorter than"@ + space);
    assert("letter "@ =~= "letter"@ + space);
    assert("containing "@ =~= "containing"@ + space);
    if has_substring(lowered, "longer than "@) {
        lemma_substring_of_beginning(lowered, "longer than"@, space);
    }
    if has_substring(lowered, "shorter than "@) {
        lemma_substring_of_beginning(lowered, "shorter than"@, space);
    }
    if has_substring(lowered, "letter "@) {
        lemma_substring_of_beginning(lowered, "letter"@, space);
    }
    if has_substring(lowered, "containing "@) {
        lemma_substring_of_beginning(lowered, "containing"@, space);
    }
    assert(captures_in(lowered) == PhraseCaptures::empty());
}

/// A phrase with both bounds, the minimum above the maximum, is refused as
/// conflicting.
pub proof fn law_conflicting_bounds(lowered: Seq<char>, found: PhraseCaptures, min: usize, max: usize)
    requires
        read_min_length(found) == Some(min),
        read_max_length(found) == Some(max),
        min > max,
    ensures
        interpret(lowered, found) == Err::<Filters, InterpretFailure>(
            InterpretFailure::ConflictingFilters,
        ),
{
}

/// The filter set that only asks for a minimum length.
pub open spec fn only_min_length(min: usize) -> Filters {
    Filters {
        is_palindrome: None,
        min_length: Some(min),
        max_length: None,
        word_count: None,
        contains_character: None,
    }
}

/// The filter set that only asks for a maximum length.
pub open spec fn only_max_length(max: usize) -> Filters {
    Filters {
        is_palindrome: None,
        min_length: None,
        max_length: Some(max),
        word_count: None,
        contains_character: None,
    }
}

/// The digits of a number after `opening` hold none of the letters `p`, `w`
/// and `f`, provided that `opening` holds none of them.
proof fn lemma_plain_phrase(opening: Seq<char>, n: nat)
    requires
        !opening.contains('p'),
        !opening.contains('w'),
        !opening.contains('f'),
    ensures
        !mentions_word(opening + decimal_digits(n)),
{
    let text = opening + decimal_digits(n);
    lemma_decimal_round_trip(n);
    assert forall|c: char| (c == 'p' || c == 'w' || c == 'f') implies !text.contains(c) by {
        if text.contains(c) {
            let k = choose|k: int| 0 <= k < text.len() && text[k] == c;
            if k < opening.len() {
                assert(opening[k] == c);
            } else {
                assert(is_digit(decimal_digits(n)[k - opening.len()]));
            }
        }
    }
    reveal_strlit("palindromic");
    reveal_strlit("palindrome");
    reveal_strlit("single word");
    reveal_strlit("first vowel");
    assert("palindromic"@[0] == 'p');
    assert("palindrome"@[0] == 'p');
    assert("single word"@[7] == 'w');
    assert("first vowel"@[0] == 'f');
    lemma_substring_needs_char(text, "palindromic"@, 'p');
    lemma_substring_needs_char(text, "palindrome"@, 'p');
    lemma_substring_needs_char(text, "single word"@, 'w');
    lemma_substring_needs_char(text, "first vowel"@, 'f');
}

/// The lower-cased phrase holds one of the words that are looked for
/// without a regular expression.
pub open spec fn mentions_word(lowered: Seq<char>) -> bool {
    ||| has_substring(lowered, "palindromic"@)
    ||| has_substring(lowered, "palindrome"@)
    ||| has_substring(lowered, "single word"@)
    ||| has_substring(lowered, "first vowel"@)
}

/// `strings longer than N` asks for a length of at least `N + 1` and for
/// nothing else, for every `N` below the largest length, given that the
/// regular expression for `longer than` captures the digits of `N` in the
/// phrase.
pub proof fn law_longer_than(n: nat)
    requires
        n < usize::MAX,
    ensures
        ({
            let lowered = "strings longer than "@ + decimal_digits(n);
            first_capture("longer than (\\d+)"@, lowered) == Some(decimal_digits(n))
                ==> interpret(lowered, captures_in(lowered)) == Ok::<Filters, InterpretFailure>(
                only_min_length((n + 1) as usize),
            )
        }),
{
    let opening = "strings longer than "@;
    let digits = decimal_digits(n);
    let lowered = opening + digits;
    lemma_decimal_round_trip(n);
    reveal_strlit("strings longer than ");
    lemma_plain_phrase(opening, n);
    assert forall|k: int| 0 <= k < lowered.len() implies #[trigger] lowered[k] == (if k < 20 {
        opening[k]
    } else {
        digits[k - 20]
    }) && (k >= 20 ==> is_digit(lowered[k])) by {}
    assert(has_substring(lowered, "longer than "@)) by {
        reveal_strlit("longer than ");
        assert(lowered.subrange(8, 20) =~= "longer than "@);
        assert(occurs_at(lowered, "longer than "@, 8));
    }
    assert(!has_substring(lowered, "shorter than "@)) by {
        reveal_strlit("shorter than ");
        lemma_substring_needs_pair(lowered, "shorter than "@);
    }
    assert(!has_substring(lowered, "letter "@)) by {
        reveal_strlit("letter ");
        lemma_substring_needs_pair(lowered, "letter "@);
    }
    assert(!has_substring(lowered, "containing "@)) by {
        reveal_strlit("containing ");
        assert("containing "@[0] == 'c');
        assert(!lowered.contains('c'));
        lemma_substring_needs_char(lowered, "containing "@, 'c');
    }
}

/// `strings shorter than N` asks for a length of at most `N - 1` and for
/// nothing else, for every `N` from one to the largest length, and is
/// refused for `N = 0`, given that the regular expression for `shorter than`
/// captures the digits of `N` in the phrase.
pub proof fn law_shorter_than(n: nat)
    requires
        n <= usize::MAX,
    ensures
        ({
            let lowered = "strings shorter than "@ + decimal_digits(n);
            first_capture("shorter than (\\d+)"@, lowered) == Some(decimal_digits(n))
                ==> interpret(lowered, captures_in(lowered)) == if n >= 1 {
                Ok::<Filters, InterpretFailure>(only_max_length((n - 1) as usize))
            } else {
                Err::<Filters, InterpretFailure>(
                    InterpretFailure::InvalidValue {
                        field: FilterField::MaxLength,
                        input: decimal_digits(n),
                    },
                )
            }
        }),
{
    let opening = "strings shorter than "@;
    let digits = decimal_digits(n);
    let lowered = opening + digits;
    lemma_decimal_round_trip(n);
    reveal_strlit("strings shorter than ");
    lemma_plain_phrase(opening, n);
    assert forall|k: int| 0 <= k < lowered.len() implies #[trigger] lowered[k] == (if k < 21 {
        opening[k]
    } else {
        digits[k - 21]
    }) && (k >= 21 ==> is_digit(lowered[k])) by {}
    assert(has_substring(lowered, "shorter than "@)) by {
        reveal_strlit("shorter than ");
        assert(lowered.subrange(8, 21) =~= "shorter than "@);
        assert(occurs_at(lowered, "shorter than "@, 8));
    }
    assert(!lowered.contains('l'));
    assert(!lowered.contains('c'));
    assert(!has_substring(lowered, "longer than "@)) by {
        reveal_strlit("longer than ");
        assert("longer than "@[0] == 'l');
        lemma_substring_needs_char(lowered, "longer than "@, 'l');
    }
    assert(!has_substring(lowered, "letter "@)) by {
        reveal_strlit("letter ");
        assert("letter "@[0] == 'l');
        lemma_substring_needs_char(lowered, "letter "@, 'l');
    }
    assert(!has_substring(lowered, "containing "@)) by {
        reveal_strlit("containing ");
        assert("containing "@[0] == 'c');
        lemma_substring_needs_char(lowered, "containing "@, 'c');
    }
}

/// Whatever else a phrase holds, digits that are captured after `longer
/// than` give the minimum length `N + 1`, and digits that are captured after
/// `shorter than` the maximum length `N - 1`, where these are lengths.
pub proof fn law_captured_bounds(found: PhraseCaptures, n: nat)
    requires
        n <= usize::MAX,
    ensures
        found.longer_than == Some(decimal_digits(n)) && n < usize::MAX ==> read_min_length(found)
            == Some((n + 1) as usize),
        found.shorter_than == Some(decimal_digits(n)) && n >= 1 ==> read_max_length(found)
            == Some((n - 1) as usize),
{
    lemma_decimal_round_trip(n);
}

/// `shorter than 0` is refused, whatever else the phrase holds, unless
/// `longer than` with the largest length is refused before it.
pub proof fn law_shorter_than_zero(lowered: Seq<char>, found: PhraseCaptures)
    requires
        found.shorter_than == Some(decimal_digits(0)),
        captured_number(found.longer_than) != Some(usize::MAX as nat),
    ensures
        interpret(lowered, found) == Err::<Filters, InterpretFailure>(
            InterpretFailure::InvalidValue {
                field: FilterField::MaxLength,
                input: decimal_digits(0),
            },
        ),
{
    lemma_decimal_round_trip(0);
}

} // verus!
