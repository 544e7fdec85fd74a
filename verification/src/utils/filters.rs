//! Reading filters from the raw values of a structured query.

use vstd::prelude::*;
use crate::models::string::{FilterField, Filters};
use crate::utils::number::{parse_decimal, parse_unsigned};
use crate::utils::text::{lowercase, opt_text, same_text, to_lowercase};

verus! {

/// The raw values of a structured query. A field that the query does not
/// name is `None`.
#[derive(Debug)]
pub struct QueryParams {
    pub is_palindrome: Option<String>,
    pub min_length: Option<String>,
    pub max_length: Option<String>,
    pub word_count: Option<String>,
    pub contains_character: Option<String>,
}

/// What a [`QueryParams`] stands for.
pub struct RawQuery {
    pub is_palindrome: Option<Seq<char>>,
    pub min_length: Option<Seq<char>>,
    pub max_length: Option<Seq<char>>,
    pub word_count: Option<Seq<char>>,
    pub contains_character: Option<Seq<char>>,
}

impl View for QueryParams {
    type V = RawQuery;

    open spec fn view(&self) -> RawQuery {
        RawQuery {
            is_palindrome: opt_text(self.is_palindrome),
            min_length: opt_text(self.min_length),
            max_length: opt_text(self.max_length),
            word_count: opt_text(self.word_count),
            contains_character: opt_text(self.contains_character),
        }
    }
}

/// Why a structured query gave no filter set.
#[derive(Debug, PartialEq, Eq)]
pub enum ParseError {
    /// The raw value `input` of `field` is not of the field's type.
    InvalidValue { field: FilterField, input: String },
    /// The minimum length is above the maximum length.
    ConflictingFilters,
}

/// What a [`ParseError`] stands for.
pub enum ParseFailure {
    InvalidValue { field: FilterField, input: Seq<char> },
    ConflictingFilters,
}

impl View for ParseError {
    type V = ParseFailure;

    open spec fn view(&self) -> ParseFailure {
        match self {
            ParseError::InvalidValue { field, input } => ParseFailure::InvalidValue {
                field: *field,
                input: input@,
            },
            ParseError::ConflictingFilters => ParseFailure::ConflictingFilters,
        }
    }
}

/// The message for a raw value that is no boolean.
pub open spec fn invalid_boolean(input: Seq<char>) -> Seq<char> {
    "Invalid boolean value: "@ + input
}

/// The message for a raw value that is no length.
pub open spec fn invalid_integer(input: Seq<char>) -> Seq<char> {
    "Invalid integer value: "@ + input
}

/// The message for a raw value that is not one character.
pub open spec fn invalid_character() -> Seq<char> {
    "contains_character must be a single character"@
}

impl ParseFailure {
    /// The text that describes the failure to a user.
    pub open spec fn message(self) -> Seq<char> {
        match self {
            ParseFailure::InvalidValue { field, input } => match field {
                FilterField::IsPalindrome => invalid_boolean(input),
                FilterField::ContainsCharacter => invalid_character(),
                _ => invalid_integer(input),
            },
            ParseFailure::ConflictingFilters => "min_length cannot be greater than max_length"@,
        }
    }
}

impl ParseError {
    /// The text that describes the failure to a user.
    pub fn message(&self) -> (text: String)
        ensures
            text@ == self@.message(),
    {
        match self {
            ParseError::InvalidValue { field, input } => match field {
                FilterField::IsPalindrome => String::from_str("Invalid boolean value: ").concat(
                    input.as_str(),
                ),
                FilterField::ContainsCharacter => String::from_str(
                    "contains_character must be a single character",
                ),
                _ => String::from_str("Invalid integer value: ").concat(input.as_str()),
            },
            ParseError::ConflictingFilters => String::from_str(
                "min_length cannot be greater than max_length",
            ),
        }
    }
}

/// The boolean that a lower-cased raw value denotes.
pub open spec fn bool_of(lowered: Seq<char>) -> Option<bool> {
    if lowered == "true"@ {
        Some(true)
    } else if lowered == "false"@ {
        Some(false)
    } else {
        None
    }
}

/// The length that a raw value denotes: an optional `+` and decimal digits
/// whose value fits a length.
pub open spec fn length_of(raw: Seq<char>) -> Option<usize> {
    match parse_unsigned(raw, usize::MAX as nat) {
        Some(n) => Some(n as usize),
        None => None,
    }
}

/// The character that a raw value denotes: the raw value is exactly one
/// character.
pub open spec fn char_of(raw: Seq<char>) -> Option<char> {
    if raw.len() == 1 {
        Some(raw[0])
    } else {
        None
    }
}

/// The typed form of an optional raw value, where `typed` gives the typed
/// form of a raw value that is present.
pub open spec fn typed<T>(raw: Option<Seq<char>>, typed: spec_fn(Seq<char>) -> Option<T>) -> Option<
    T,
> {
    match raw {
        Some(text) => typed(text),
        None => None,
    }
}

/// A raw value is present and has no typed form.
pub open spec fn malformed<T>(raw: Option<Seq<char>>, typed: spec_fn(Seq<char>) -> Option<T>) -> bool {
    raw is Some && typed(raw->0) is None
}

/// The typed form of the fields of `query`, absent fields staying absent.
pub open spec fn typed_filters(query: RawQuery) -> Filters {
    Filters {
        is_palindrome: typed(query.is_palindrome, |raw: Seq<char>| bool_of(lowercase(raw))),
        min_length: typed(query.min_length, |raw: Seq<char>| length_of(raw)),
        max_length: typed(query.max_length, |raw: Seq<char>| length_of(raw)),
        word_count: typed(query.word_count, |raw: Seq<char>| length_of(raw)),
        contains_character: typed(query.contains_character, |raw: Seq<char>| char_of(raw)),
    }
}

/// The first field of `query`, in the order of the declaration, whose raw
/// value has no typed form.
pub open spec fn first_malformed(query: RawQuery) -> Option<FilterField> {
    if malformed(query.is_palindrome, |raw: Seq<char>| bool_of(lowercase(raw))) {
        Some(FilterField::IsPalindrome)
    } else if malformed(query.min_length, |raw: Seq<char>| length_of(raw)) {
        Some(FilterField::MinLength)
    } else if malformed(query.max_length, |raw: Seq<char>| length_of(raw)) {
        Some(FilterField::MaxLength)
    } else if malformed(query.word_count, |raw: Seq<char>| length_of(raw)) {
        Some(FilterField::WordCount)
    } else if malformed(query.contains_character, |raw: Seq<char>| char_of(raw)) {
        Some(FilterField::ContainsCharacter)
    } else {
        None
    }
}

/// The raw value of `field` in `query`.
pub open spec fn raw_value(query: RawQuery, field: FilterField) -> Option<Seq<char>> {
    match field {
        FilterField::IsPalindrome => query.is_palindrome,
        FilterField::MinLength => query.min_length,
        FilterField::MaxLength => query.max_length,
        FilterField::WordCount => query.word_count,
        FilterField::ContainsCharacter => query.contains_character,
    }
}

/// What a structured query means: the first malformed field is reported;
/// without one, a minimum length above the maximum length is reported;
/// otherwise the query gives its typed fields.
pub open spec fn parse_outcome(query: RawQuery) -> Result<Filters, ParseFailure> {
    match first_malformed(query) {
        Some(field) => Err(
            ParseFailure::InvalidValue { field, input: raw_value(query, field)->0 },
        ),
        None => if typed_filters(query).bounds_conflict() {
            Err(ParseFailure::ConflictingFilters)
        } else {
            Ok(typed_filters(query))
        },
    }
}

/// The boolean that a lower-cased raw value denotes.
pub fn read_bool(lowered: &str) -> (value: Option<bool>)
    ensures
        value == bool_of(lowered@),
{
    if same_text(lowered, "true") {
        Some(true)
    } else if same_text(lowered, "false") {
        Some(false)
    } else {
        None
    }
}

/// Reads `true` or `false`, in any case of the letters.
pub fn parse_bool(s: &str) -> (outcome: Result<bool, String>)
    ensures
        match outcome {
            Ok(value) => bool_of(lowercase(s@)) == Some(value),
            Err(message) => bool_of(lowercase(s@)) is None && message@ == invalid_boolean(s@),
        },
{
    let lowered = to_lowercase(s);
    match read_bool(lowered.as_str()) {
        Some(value) => Ok(value),
        None => Err(String::from_str("Invalid boolean value: ").concat(s)),
    }
}

/// Reads a length.
pub fn parse_usize(s: &str) -> (outcome: Result<usize, String>)
    ensures
        match outcome {
            Ok(value) => length_of(s@) == Some(value),
            Err(message) => length_of(s@) is None && message@ == invalid_integer(s@),
        },
{
    match parse_decimal(s, usize::MAX as u64) {
        Some(value) => Ok(value as usize),
        None => Err(String::from_str("Invalid integer value: ").concat(s)),
    }
}

/// Reads a single character.
pub fn parse_char(s: &str) -> (outcome: Result<char, String>)
    ensures
        match outcome {
            Ok(value) => char_of(s@) == Some(value),
            Err(message) => char_of(s@) is None && message@ == invalid_character(),
        },
{
    if s.unicode_len() == 1 {
        Ok(s.get_char(0))
    } else {
        Err(String::from_str("contains_character must be a single character"))
    }
}

/// Reads the filters of a structured query.
pub fn parse_filters(query: QueryParams) -> (outcome: Result<Filters, ParseError>)
    ensures
        match outcome {
            Ok(filters) => parse_outcome(query@) == Ok::<Filters, ParseFailure>(filters),
            Err(e) => parse_outcome(query@) == Err::<Filters, ParseFailure>(e@),
        },
{
    let is_palindrome = match &query.is_palindrome {
        Some(val) => match parse_bool(val.as_str()) {
            Ok(value) => Some(value),
            Err(_) => {
                return Err(
                    ParseError::InvalidValue {
                        field: FilterField::IsPalindrome,
                        input: val.clone(),
                    },
                );
            },
        },
        None => None,
    };
    let min_length = match &query.min_length {
        Some(val) => match parse_usize(val.as_str()) {
            Ok(value) => Some(value),
            Err(_) => {
                return Err(
                    ParseError::InvalidValue { field: FilterField::MinLength, input: val.clone() },
                );
            },
        },
        None => None,
    };
    let max_length = match &query.max_length {
        Some(val) => match parse_usize(val.as_str()) {
            Ok(value) => Some(value),
            Err(_) => {
                return Err(
                    ParseError::InvalidValue { field: FilterField::MaxLength, input: val.clone() },
                );
            },
        },
        None => None,
    };
    let word_count = match &query.word_count {
        Some(val) => match parse_usize(val.as_str()) {
            Ok(value) => Some(value),
            Err(_) => {
                return Err(
                    ParseError::InvalidValue { field: FilterField::WordCount, input: val.clone() },
                );
            },
        },
        None => None,
    };
    let contains_character = match &query.contains_character {
        Some(val) => match parse_char(val.as_str()) {
            Ok(value) => Some(value),
            Err(_) => {
                return Err(
                    ParseError::InvalidValue {
                        field: FilterField::ContainsCharacter,
                        input: val.clone(),
                    },
                );
            },
        },
        None => None,
    };
    if let (Some(min), Some(max)) = (min_length, max_length) {
        if min > max {
            return Err(ParseError::ConflictingFilters);
        }
    }
    Ok(Filters { is_palindrome, min_length, max_length, word_count, contains_character })
}

/// The query that names only the field `is_palindrome`, with the raw value
/// `raw`.
pub open spec fn only_is_palindrome(raw: Seq<char>) -> RawQuery {
    RawQuery {
        is_palindrome: Some(raw),
        min_length: None,
        max_length: None,
        word_count: None,
        contains_character: None,
    }
}

/// The filter set that only asks whether the string is a palindrome.
pub open spec fn only_palindrome(wanted: bool) -> Filters {
    Filters {
        is_palindrome: Some(wanted),
        min_length: None,
        max_length: None,
        word_count: None,
        contains_character: None,
    }
}

/// A raw value whose lowercase form is `true` or `false` gives that boolean,
/// in a query of its own and in every query that gives a filter set; every
/// other raw value is reported as invalid, whatever else the query holds.
pub proof fn law_boolean_values(query: RawQuery, raw: Seq<char>)
    requires
        query.is_palindrome == Some(raw),
    ensures
        lowercase(raw) == "true"@ ==> parse_outcome(only_is_palindrome(raw)) == Ok::<
            Filters,
            ParseFailure,
        >(only_palindrome(true)),
        lowercase(raw) == "false"@ ==> parse_outcome(only_is_palindrome(raw)) == Ok::<
            Filters,
            ParseFailure,
        >(only_palindrome(false)),
        parse_outcome(query) matches Ok(filters) ==> {
            &&& lowercase(raw) == "true"@ || lowercase(raw) == "false"@
            &&& filters.is_palindrome == Some(lowercase(raw) == "true"@)
        },
        lowercase(raw) != "true"@ && lowercase(raw) != "false"@ ==> parse_outcome(query) == Err::<
            Filters,
            ParseFailure,
        >(ParseFailure::InvalidValue { field: FilterField::IsPalindrome, input: raw }),
{
    reveal_strlit("true");
    reveal_strlit("false");
    assert("true"@ != "false"@) by {
        assert("true"@.len() != "false"@.len());
    }
}

/// A query whose fields are all well-formed and whose minimum length is
/// above its maximum length is reported as conflicting.
pub proof fn law_conflicting_bounds(query: RawQuery, min: usize, max: usize)
    requires
        first_malformed(query) is None,
        query.min_length matches Some(raw) && length_of(raw) == Some(min),
        query.max_length matches Some(raw) && length_of(raw) == Some(max),
        min > max,
    ensures
        parse_outcome(query) == Err::<Filters, ParseFailure>(ParseFailure::ConflictingFilters),
{
}

} // verus!
