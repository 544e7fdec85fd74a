use string_analyzer_service::models::string::{FilterField, Filters};
use string_analyzer_service::utils::filters::{
    parse_bool, parse_char, parse_filters, parse_usize, read_bool, ParseError, QueryParams,
};

fn empty_query() -> QueryParams {
    QueryParams {
        is_palindrome: None,
        min_length: None,
        max_length: None,
        word_count: None,
        contains_character: None,
    }
}

fn text(s: &str) -> Option<String> {
    Some(s.to_string())
}

#[test]
fn an_empty_query_asks_for_nothing() {
    assert_eq!(parse_filters(empty_query()), Ok(Filters::default()));
}

#[test]
fn every_field_is_read() {
    let query = QueryParams {
        is_palindrome: text("true"),
        min_length: text("3"),
        max_length: text("30"),
        word_count: text("2"),
        contains_character: text("x"),
    };
    assert_eq!(
        parse_filters(query),
        Ok(Filters {
            is_palindrome: Some(true),
            min_length: Some(3),
            max_length: Some(30),
            word_count: Some(2),
            contains_character: Some('x'),
        })
    );
}

#[test]
fn booleans_are_read_in_any_case() {
    for raw in ["true", "TRUE", "True", "tRuE"] {
        let query = QueryParams { is_palindrome: text(raw), ..empty_query() };
        assert_eq!(parse_filters(query).unwrap().is_palindrome, Some(true));
    }
    for raw in ["false", "FALSE", "False"] {
        let query = QueryParams { is_palindrome: text(raw), ..empty_query() };
        assert_eq!(parse_filters(query).unwrap().is_palindrome, Some(false));
    }
}

#[test]
fn other_booleans_are_invalid() {
    for raw in ["yes", "1", "", " true", "truee", "t"] {
        let query = QueryParams {
            is_palindrome: text(raw),
            min_length: text("10"),
            max_length: text("5"),
            ..empty_query()
        };
        assert_eq!(
            parse_filters(query),
            Err(ParseError::InvalidValue {
                field: FilterField::IsPalindrome,
                input: raw.to_string()
            })
        );
    }
}

#[test]
fn min_above_max_is_a_conflict() {
    let query = QueryParams { min_length: text("10"), max_length: text("5"), ..empty_query() };
    assert_eq!(parse_filters(query), Err(ParseError::ConflictingFilters));
    let query = QueryParams { min_length: text("5"), max_length: text("5"), ..empty_query() };
    assert_eq!(
        parse_filters(query),
        Ok(Filters { min_length: Some(5), max_length: Some(5), ..Filters::default() })
    );
}

#[test]
fn the_first_malformed_field_is_reported() {
    let query = QueryParams {
        min_length: text("ten"),
        max_length: text("-1"),
        word_count: text("x"),
        contains_character: text("ab"),
        ..empty_query()
    };
    assert_eq!(
        parse_filters(query),
        Err(ParseError::InvalidValue { field: FilterField::MinLength, input: "ten".to_string() })
    );
    let query = QueryParams {
        max_length: text("-1"),
        word_count: text("x"),
        contains_character: text("ab"),
        ..empty_query()
    };
    assert_eq!(
        parse_filters(query),
        Err(ParseError::InvalidValue { field: FilterField::MaxLength, input: "-1".to_string() })
    );
    let query =
        QueryParams { word_count: text("x"), contains_character: text("ab"), ..empty_query() };
    assert_eq!(
        parse_filters(query),
        Err(ParseError::InvalidValue { field: FilterField::WordCount, input: "x".to_string() })
    );
    let query = QueryParams { contains_character: text("ab"), ..empty_query() };
    assert_eq!(
        parse_filters(query),
        Err(ParseError::InvalidValue {
            field: FilterField::ContainsCharacter,
            input: "ab".to_string()
        })
    );
}

#[test]
fn lengths_are_decimal_numbers() {
    assert_eq!(parse_usize("0"), Ok(0));
    assert_eq!(parse_usize("42"), Ok(42));
    assert_eq!(parse_usize("+42"), Ok(42));
    assert_eq!(parse_usize("007"), Ok(7));
    assert_eq!(parse_usize(&format!("{}", usize::MAX)), Ok(usize::MAX));
    assert_eq!(parse_usize(&format!("000{}", usize::MAX)), Ok(usize::MAX));
    for raw in ["", "+", "-1", "-0", "++1", "1+", " 1", "1 ", "1.0", "1e3", "0x10", "١٢"] {
        assert_eq!(parse_usize(raw), Err(format!("Invalid integer value: {}", raw)));
        assert!(raw.parse::<usize>().is_err());
    }
    let beyond = format!("{}0", usize::MAX);
    assert_eq!(parse_usize(&beyond), Err(format!("Invalid integer value: {}", beyond)));
    let beyond = format!("{}", usize::MAX as u128 + 1);
    assert_eq!(parse_usize(&beyond), Err(format!("Invalid integer value: {}", beyond)));
}

#[test]
fn booleans_carry_their_message() {
    assert_eq!(parse_bool("TRUE"), Ok(true));
    assert_eq!(parse_bool("fAlse"), Ok(false));
    assert_eq!(parse_bool("maybe"), Err("Invalid boolean value: maybe".to_string()));
    assert_eq!(read_bool("true"), Some(true));
    assert_eq!(read_bool("false"), Some(false));
    assert_eq!(read_bool("TRUE"), None);
}

#[test]
fn a_character_is_exactly_one_character() {
    assert_eq!(parse_char("a"), Ok('a'));
    assert_eq!(parse_char(" "), Ok(' '));
    assert_eq!(parse_char("é"), Ok('é'));
    assert_eq!(parse_char("日"), Ok('日'));
    for raw in ["", "ab", "日本", "e\u{301}"] {
        assert_eq!(
            parse_char(raw),
            Err("contains_character must be a single character".to_string())
        );
    }
}

#[test]
fn parse_failures_describe_themselves() {
    assert_eq!(
        ParseError::ConflictingFilters.message(),
        "min_length cannot be greater than max_length"
    );
    assert_eq!(
        ParseError::InvalidValue { field: FilterField::IsPalindrome, input: "x".to_string() }
            .message(),
        "Invalid boolean value: x"
    );
    assert_eq!(
        ParseError::InvalidValue { field: FilterField::WordCount, input: "x".to_string() }
            .message(),
        "Invalid integer value: x"
    );
    assert_eq!(
        ParseError::InvalidValue { field: FilterField::ContainsCharacter, input: "xy".to_string() }
            .message(),
        "contains_character must be a single character"
    );
    assert_eq!(FilterField::MinLength.name(), "min_length");
    assert_eq!(FilterField::IsPalindrome.name(), "is_palindrome");
    assert_eq!(FilterField::MaxLength.name(), "max_length");
    assert_eq!(FilterField::WordCount.name(), "word_count");
    assert_eq!(FilterField::ContainsCharacter.name(), "contains_character");
}
