use string_analyzer_service::models::string::{FilterField, Filters};
use string_analyzer_service::services::nlp_parser::{
    apply_rules, find_matches, parse_natural_language, InterpretError, PhraseMatches,
};

fn no_filters() -> Filters {
    Filters::default()
}

fn no_matches() -> PhraseMatches {
    PhraseMatches { longer_than: None, shorter_than: None, letter: None, containing: None }
}

#[test]
fn single_word_palindromic_strings() {
    let (filters, original) =
        parse_natural_language("all single word palindromic strings").unwrap();
    assert_eq!(
        filters,
        Filters { word_count: Some(1), is_palindrome: Some(true), ..no_filters() }
    );
    assert_eq!(original, "all single word palindromic strings");
}

#[test]
fn strings_containing_the_letter_z() {
    let (filters, _) = parse_natural_language("strings containing the letter z").unwrap();
    assert_eq!(filters, Filters { contains_character: Some('z'), ..no_filters() });
}

#[test]
fn longer_than_asks_for_one_more() {
    let (filters, _) = parse_natural_language("strings longer than 10").unwrap();
    assert_eq!(filters, Filters { min_length: Some(11), ..no_filters() });
    let (filters, _) = parse_natural_language("strings longer than 0").unwrap();
    assert_eq!(filters, Filters { min_length: Some(1), ..no_filters() });
}

#[test]
fn shorter_than_asks_for_one_less() {
    let (filters, _) = parse_natural_language("strings shorter than 10").unwrap();
    assert_eq!(filters, Filters { max_length: Some(9), ..no_filters() });
    let (filters, _) = parse_natural_language("strings shorter than 1").unwrap();
    assert_eq!(filters, Filters { max_length: Some(0), ..no_filters() });
}

#[test]
fn shorter_than_zero_is_invalid() {
    assert_eq!(
        parse_natural_language("strings shorter than 0"),
        Err(InterpretError::InvalidValue {
            field: FilterField::MaxLength,
            input: "0".to_string()
        })
    );
    assert_eq!(
        parse_natural_language("palindromic strings shorter than 000"),
        Err(InterpretError::InvalidValue {
            field: FilterField::MaxLength,
            input: "000".to_string()
        })
    );
}

#[test]
fn longer_than_the_largest_length_is_invalid() {
    let largest = format!("{}", usize::MAX);
    assert_eq!(
        parse_natural_language(&format!("strings longer than {}", largest)),
        Err(InterpretError::InvalidValue { field: FilterField::MinLength, input: largest })
    );
    let (filters, _) =
        parse_natural_language(&format!("strings shorter than {}", usize::MAX)).unwrap();
    assert_eq!(filters.max_length, Some(usize::MAX - 1));
    let (filters, _) =
        parse_natural_language(&format!("strings longer than {}", usize::MAX - 1)).unwrap();
    assert_eq!(filters.min_length, Some(usize::MAX));
}

#[test]
fn a_number_beyond_every_length_sets_nothing() {
    assert_eq!(
        parse_natural_language("strings longer than 99999999999999999999999999"),
        Err(InterpretError::Unparseable)
    );
    let (filters, _) =
        parse_natural_language("palindromes shorter than 99999999999999999999999999").unwrap();
    assert_eq!(filters, Filters { is_palindrome: Some(true), ..no_filters() });
}

#[test]
fn digits_outside_ascii_set_nothing() {
    assert_eq!(
        parse_natural_language("strings longer than ٣"),
        Err(InterpretError::Unparseable)
    );
    assert_eq!(
        parse_natural_language("strings longer than 5٣"),
        Err(InterpretError::Unparseable)
    );
}

#[test]
fn conflicting_bounds_are_refused() {
    assert_eq!(
        parse_natural_language("strings longer than 10 and shorter than 5"),
        Err(InterpretError::ConflictingFilters)
    );
    assert_eq!(
        parse_natural_language("palindromic strings longer than 4 shorter than 5"),
        Err(InterpretError::ConflictingFilters)
    );
    let (filters, _) = parse_natural_language("longer than 4 shorter than 6").unwrap();
    assert_eq!(filters, Filters { min_length: Some(5), max_length: Some(5), ..no_filters() });
}

#[test]
fn a_phrase_without_keywords_is_unparseable() {
    assert_eq!(parse_natural_language("give me everything"), Err(InterpretError::Unparseable));
    assert_eq!(parse_natural_language(""), Err(InterpretError::Unparseable));
    assert_eq!(parse_natural_language("longer than ten"), Err(InterpretError::Unparseable));
    assert_eq!(parse_natural_language("the letter 5"), Err(InterpretError::Unparseable));
}

#[test]
fn the_phrase_is_matched_in_lowercase() {
    let (filters, original) = parse_natural_language("PALINDROME Strings LONGER THAN 3").unwrap();
    assert_eq!(filters, Filters { is_palindrome: Some(true), min_length: Some(4), ..no_filters() });
    assert_eq!(original, "PALINDROME Strings LONGER THAN 3");
    let (filters, _) = parse_natural_language("Containing The Letter Q").unwrap();
    assert_eq!(filters.contains_character, Some('q'));
}

#[test]
fn first_vowel_means_the_letter_a() {
    let (filters, _) = parse_natural_language("strings with the first vowel").unwrap();
    assert_eq!(filters, Filters { contains_character: Some('a'), ..no_filters() });
}

#[test]
fn later_patterns_override_earlier_ones() {
    let (filters, _) = parse_natural_language("first vowel or the letter k").unwrap();
    assert_eq!(filters.contains_character, Some('k'));
    let (filters, _) = parse_natural_language("letter k but containing m").unwrap();
    assert_eq!(filters.contains_character, Some('m'));
    let (filters, _) = parse_natural_language("containing the letter 5").unwrap();
    assert_eq!(filters.contains_character, Some('t'));
    let (filters, _) = parse_natural_language("containing the cat").unwrap();
    assert_eq!(filters.contains_character, Some('t'));
}

#[test]
fn the_leftmost_match_is_taken() {
    let (filters, _) = parse_natural_language("longer than 3 or longer than 7").unwrap();
    assert_eq!(filters.min_length, Some(4));
    let (filters, _) = parse_natural_language("containing 5 or containing b").unwrap();
    assert_eq!(filters.contains_character, Some('b'));
}

#[test]
fn matches_hold_what_the_patterns_capture() {
    let found = find_matches("longer than 12 shorter than 34 letter x containing the letter y");
    assert_eq!(found.longer_than, Some("12".to_string()));
    assert_eq!(found.shorter_than, Some("34".to_string()));
    assert_eq!(found.letter, Some("x".to_string()));
    assert_eq!(found.containing, Some("y".to_string()));
    let found = find_matches("nothing of the kind");
    assert_eq!(found.longer_than, None);
    assert_eq!(found.shorter_than, None);
    assert_eq!(found.letter, None);
    assert_eq!(found.containing, None);
}

#[test]
fn rules_work_on_given_matches() {
    let found = PhraseMatches { longer_than: Some("7".to_string()), ..no_matches() };
    assert_eq!(
        apply_rules("anything", &found),
        Ok(Filters { min_length: Some(8), ..no_filters() })
    );
    let found = PhraseMatches { letter: Some("".to_string()), ..no_matches() };
    assert_eq!(apply_rules("anything", &found), Err(InterpretError::Unparseable));
    let found = PhraseMatches { shorter_than: Some("+3".to_string()), ..no_matches() };
    assert_eq!(
        apply_rules("single word", &found),
        Ok(Filters { max_length: Some(2), word_count: Some(1), ..no_filters() })
    );
    let found = PhraseMatches {
        longer_than: Some(format!("{}", usize::MAX)),
        shorter_than: Some("0".to_string()),
        ..no_matches()
    };
    assert_eq!(
        apply_rules("", &found),
        Err(InterpretError::InvalidValue {
            field: FilterField::MinLength,
            input: format!("{}", usize::MAX)
        })
    );
}

#[test]
fn failures_describe_themselves() {
    assert_eq!(
        InterpretError::ConflictingFilters.message(),
        "Conflicting filters: min_length > max_length"
    );
    assert_eq!(InterpretError::Unparseable.message(), "Unable to parse natural language query");
    assert_eq!(
        InterpretError::InvalidValue { field: FilterField::MaxLength, input: "0".to_string() }
            .message(),
        "Invalid value for max_length: 0"
    );
}
