//! Records, their derived properties, and the filters that select them.

use vstd::prelude::*;
use crate::models::frequency::FrequencyMap;

verus! {

/// A point in time: seconds since the Unix epoch and the nanoseconds within
/// that second.
#[derive(Clone, Copy, Debug, PartialEq, Eq)]
pub struct Timestamp {
    pub secs: i64,
    pub nanos: u32,
}

/// A request to analyse and store a string.
#[derive(Debug)]
pub struct StringInput {
    pub value: String,
}

/// The properties derived from a string.
#[derive(Debug)]
pub struct StringProperties {
    /// The length of the string in bytes of its UTF-8 form.
    pub length: usize,
    pub is_palindrome: bool,
    pub unique_characters: usize,
    pub word_count: usize,
    pub sha256_hash: String,
    pub character_frequency_map: FrequencyMap,
}

/// What a [`StringProperties`] stands for.
pub struct PropertiesModel {
    pub length: nat,
    pub is_palindrome: bool,
    pub unique_characters: nat,
    pub word_count: nat,
    pub sha256_hash: Seq<char>,
    pub character_frequency_map: Map<char, nat>,
}

impl View for StringProperties {
    type V = PropertiesModel;

    open spec fn view(&self) -> PropertiesModel {
        PropertiesModel {
            length: self.length as nat,
            is_palindrome: self.is_palindrome,
            unique_characters: self.unique_characters as nat,
            word_count: self.word_count as nat,
            sha256_hash: self.sha256_hash@,
            character_frequency_map: self.character_frequency_map@,
        }
    }
}

impl Clone for StringProperties {
    fn clone(&self) -> (copy: Self)
        ensures
            copy@ == self@,
    {
        StringProperties {
            length: self.length,
            is_palindrome: self.is_palindrome,
            unique_characters: self.unique_characters,
            word_count: self.word_count,
            sha256_hash: self.sha256_hash.clone(),
            character_frequency_map: self.character_frequency_map.clone(),
        }
    }
}

/// A stored string: the text, what was derived from it, and when it was
/// stored. It is identified by the digest of its text.
#[derive(Debug)]
pub struct StoredString {
    pub id: String,
    pub value: String,
    pub properties: StringProperties,
    pub created_at: Timestamp,
}

/// What a [`StoredString`] stands for.
pub struct RecordModel {
    pub id: Seq<char>,
    pub value: Seq<char>,
    pub properties: PropertiesModel,
    pub created_at: Timestamp,
}

impl View for StoredString {
    type V = RecordModel;

    open spec fn view(&self) -> RecordModel {
        RecordModel {
            id: self.id@,
            value: self.value@,
            properties: self.properties@,
            created_at: self.created_at,
        }
    }
}

impl Clone for StoredString {
    fn clone(&self) -> (copy: Self)
        ensures
            copy@ == self@,
    {
        StoredString {
            id: self.id.clone(),
            value: self.value.clone(),
            properties: self.properties.clone(),
            created_at: self.created_at,
        }
    }
}

/// What each of `records` stands for, in the same order.
pub open spec fn models_of(records: Seq<StoredString>) -> Seq<RecordModel> {
    records.map_values(|r: StoredString| r@)
}

/// A conjunction of optional conditions on a record. An absent field asks
/// for nothing.
#[derive(Clone, Copy, Debug, PartialEq, Eq)]
pub struct Filters {
    pub is_palindrome: Option<bool>,
    pub min_length: Option<usize>,
    pub max_length: Option<usize>,
    pub word_count: Option<usize>,
    pub contains_character: Option<char>,
}

impl Filters {
    /// The filter set that asks for nothing.
    pub open spec fn empty() -> Filters {
        Filters {
            is_palindrome: None,
            min_length: None,
            max_length: None,
            word_count: None,
            contains_character: None,
        }
    }

    /// No field is present.
    pub open spec fn is_blank(self) -> bool {
        self == Filters::empty()
    }

    /// Both length bounds are present and no length can meet them.
    pub open spec fn bounds_conflict(self) -> bool {
        self.min_length is Some && self.max_length is Some && self.min_length->0
            > self.max_length->0
    }
}

impl Default for Filters {
    fn default() -> (filters: Filters)
        ensures
            filters == Filters::empty(),
    {
        Filters {
            is_palindrome: None,
            min_length: None,
            max_length: None,
            word_count: None,
            contains_character: None,
        }
    }
}

/// One of the fields of a filter set.
#[derive(Clone, Copy, Debug, PartialEq, Eq)]
pub enum FilterField {
    IsPalindrome,
    MinLength,
    MaxLength,
    WordCount,
    ContainsCharacter,
}

impl FilterField {
    /// The name under which the field is written in a query.
    pub open spec fn spec_name(self) -> Seq<char> {
        match self {
            FilterField::IsPalindrome => "is_palindrome"@,
            FilterField::MinLength => "min_length"@,
            FilterField::MaxLength => "max_length"@,
            FilterField::WordCount => "word_count"@,
            FilterField::ContainsCharacter => "contains_character"@,
        }
    }

    /// The name under which the field is written in a query.
    pub fn name(&self) -> (name: &'static str)
        ensures
            name@ == self.spec_name(),
    {
        match self {
            FilterField::IsPalindrome => "is_palindrome",
            FilterField::MinLength => "min_length",
            FilterField::MaxLength => "max_length",
            FilterField::WordCount => "word_count",
            FilterField::ContainsCharacter => "contains_character",
        }
    }
}

/// The records that a structured query selected, with the filters it used.
#[derive(Debug)]
pub struct FilteredResponse {
    pub data: Vec<StoredString>,
    pub count: usize,
    pub filters_applied: Filters,
}

/// A free-text phrase with the filters that were read from it.
#[derive(Debug)]
pub struct InterpretedQuery {
    pub original: String,
    pub parsed_filters: Filters,
}

/// The records that a free-text query selected, with its interpretation.
#[derive(Debug)]
pub struct NaturalLanguageResponse {
    pub data: Vec<StoredString>,
    pub count: usize,
    pub interpreted_query: InterpretedQuery,
}

} // verus!
