use string_analyzer_service::utils::digest::{compute_sha256, to_hex};
use string_analyzer_service::utils::number::parse_decimal;
use string_analyzer_service::utils::text::{
    chars_of, contains, contains_char, matches_at, same_text,
};

fn chars(s: &str) -> Vec<char> {
    s.chars().collect()
}

#[test]
fn bytes_are_written_in_lowercase_hex() {
    assert_eq!(to_hex(&vec![]), "");
    assert_eq!(to_hex(&vec![0x00, 0x0f, 0xa0, 0xff, 0x1e]), "000fa0ff1e");
    assert_eq!(to_hex(&vec![10, 20, 30]), "0a141e");
}

#[test]
fn digests_are_sixty_four_hex_digits() {
    let hash = compute_sha256("hello world");
    assert_eq!(hash, "b94d27b9934d3e08a52e52d7da7dabfac484efe37a5380ee9088f7ace2efcde9");
    assert_eq!(hash.len(), 64);
    assert_ne!(compute_sha256("hello world"), compute_sha256("hello world "));
}

#[test]
fn decimal_numbers_are_bounded() {
    assert_eq!(parse_decimal("255", 255), Some(255));
    assert_eq!(parse_decimal("256", 255), None);
    assert_eq!(parse_decimal("0000255", 255), Some(255));
    assert_eq!(parse_decimal("18446744073709551615", u64::MAX), Some(u64::MAX));
    assert_eq!(parse_decimal("18446744073709551616", u64::MAX), None);
    assert_eq!(parse_decimal("99999999999999999999999", u64::MAX), None);
    assert_eq!(parse_decimal("0", 0), Some(0));
    assert_eq!(parse_decimal("1", 0), None);
    assert_eq!(parse_decimal("12a", 1000), None);
    assert_eq!(parse_decimal("99999999999999999999999a", 5), None);
}

#[test]
fn text_is_compared_by_characters() {
    assert!(same_text("", ""));
    assert!(same_text("héllo", "héllo"));
    assert!(!same_text("hello", "hellO"));
    assert!(!same_text("hello", "hell"));
    assert_eq!(chars_of("aé日"), vec!['a', 'é', '日']);
}

#[test]
fn patterns_are_found_anywhere() {
    let text = chars("the quick brown fox");
    assert!(contains(&text, &chars("")));
    assert!(contains(&text, &chars("the")));
    assert!(contains(&text, &chars("fox")));
    assert!(contains(&text, &chars("ck br")));
    assert!(contains(&text, &chars("the quick brown fox")));
    assert!(!contains(&text, &chars("the quick brown fox ")));
    assert!(!contains(&text, &chars("quack")));
    assert!(contains(&chars(""), &chars("")));
    assert!(!contains(&chars(""), &chars("a")));
    assert!(matches_at(&text, &chars("quick"), 4));
    assert!(!matches_at(&text, &chars("quick"), 3));
    assert!(matches_at(&text, &chars(""), 19));
    assert!(!matches_at(&text, &chars(""), 20));
    assert!(!matches_at(&text, &chars("fox"), 17));
    assert!(!matches_at(&text, &chars("fox"), usize::MAX));
    assert!(contains_char("straße", 'ß'));
    assert!(!contains_char("strasse", 'ß'));
    assert!(!contains_char("", 'a'));
}
