use string_analyzer_service::services::analyzer::{
    analyze_string, check_palindrome, count_runs, count_unique_characters, count_words,
    is_mirrored, remove_gaps, whitespace_flags,
};

#[test]
fn test_length() {
    let result = analyze_string("hello");
    assert_eq!(result.length, 5);
}

#[test]
fn test_palindrome_simple() {
    let result = analyze_string("racecar");
    assert_eq!(result.is_palindrome, true);
}

#[test]
fn test_palindrome_case_insensitive() {
    let result = analyze_string("RaceCar");
    assert_eq!(result.is_palindrome, true);
}

#[test]
fn test_not_palindrome() {
    let result = analyze_string("hello");
    assert_eq!(result.is_palindrome, false);
}

#[test]
fn test_unique_characters() {
    let result = analyze_string("hello");
    assert_eq!(result.unique_characters, 4);
}

#[test]
fn test_word_count_single() {
    let result = analyze_string("hello");
    assert_eq!(result.word_count, 1);
}

#[test]
fn test_word_count_multiple() {
    let result = analyze_string("hello world test");
    assert_eq!(result.word_count, 3);
}

#[test]
fn test_word_count_multiple_spaces() {
    let result = analyze_string("hello    world");
    assert_eq!(result.word_count, 2);
}

#[test]
fn test_sha256_consistency() {
    let result1 = analyze_string("test");
    let result2 = analyze_string("test");
    assert_eq!(result1.sha256_hash, result2.sha256_hash);
}

#[test]
fn test_character_frequency() {
    let result = analyze_string("hello");
    assert_eq!(result.character_frequency_map.get(&'h'), Some(&1));
    assert_eq!(result.character_frequency_map.get(&'e'), Some(&1));
    assert_eq!(result.character_frequency_map.get(&'l'), Some(&2));
    assert_eq!(result.character_frequency_map.get(&'o'), Some(&1));
}

#[test]
fn racecar_is_a_one_word_palindrome_of_seven() {
    let result = analyze_string("racecar");
    assert_eq!(result.is_palindrome, true);
    assert_eq!(result.length, 7);
    assert_eq!(result.word_count, 1);
}

#[test]
fn palindrome_ignores_case_and_spaces() {
    let result = analyze_string("Race Car");
    assert_eq!(result.is_palindrome, true);
    assert_eq!(result.word_count, 2);
}

#[test]
fn palindrome_ignores_every_kind_of_whitespace() {
    assert!(analyze_string("a\tb\n\u{a0}B A").is_palindrome);
    assert!(!analyze_string("a\tb\nc").is_palindrome);
}

#[test]
fn palindrome_compares_characters_not_bytes() {
    assert!(analyze_string("été").is_palindrome);
    assert!(analyze_string("ÉTé").is_palindrome);
    assert!(!analyze_string("étè").is_palindrome);
}

#[test]
fn empty_text_has_empty_properties() {
    let result = analyze_string("");
    assert_eq!(result.length, 0);
    assert_eq!(result.is_palindrome, true);
    assert_eq!(result.unique_characters, 0);
    assert_eq!(result.word_count, 0);
    assert_eq!(result.character_frequency_map.len(), 0);
    assert_eq!(result.character_frequency_map.get(&'a'), None);
}

#[test]
fn length_counts_bytes() {
    assert_eq!(analyze_string("é").length, 2);
    assert_eq!(analyze_string("日本").length, 6);
}

#[test]
fn words_are_separated_by_any_whitespace() {
    assert_eq!(analyze_string("  lead and trail  ").word_count, 3);
    assert_eq!(analyze_string("tab\tnew\nline\r\nend").word_count, 4);
    assert_eq!(analyze_string(" \t\n ").word_count, 0);
    assert_eq!(analyze_string("no\u{a0}break").word_count, 2);
}

#[test]
fn unique_characters_tell_case_apart() {
    assert_eq!(analyze_string("aAa").unique_characters, 2);
    assert_eq!(analyze_string("a a").unique_characters, 2);
}

#[test]
fn hash_is_the_hex_digest_of_the_bytes() {
    assert_eq!(
        analyze_string("abc").sha256_hash,
        "ba7816bf8f01cfea414140de5dae2223b00361a396177a9cb410ff61f20015ad"
    );
    assert_eq!(
        analyze_string("").sha256_hash,
        "e3b0c44298fc1c149afbf4c8996fb92427ae41e4649b934ca495991b7852b855"
    );
}

#[test]
fn frequency_map_lists_each_character_once() {
    let result = analyze_string("hello");
    let mut entries = result.character_frequency_map.entries();
    entries.sort();
    assert_eq!(entries, vec![('e', 1), ('h', 1), ('l', 2), ('o', 1)]);
    assert_eq!(result.character_frequency_map.len(), 4);
    assert_eq!(result.character_frequency_map.get(&'x'), None);
}

#[test]
fn frequency_map_survives_a_copy() {
    let result = analyze_string("banana");
    let copy = result.clone();
    assert_eq!(copy.character_frequency_map.get(&'a'), Some(&3));
    assert_eq!(copy.character_frequency_map.get(&'n'), Some(&2));
    assert_eq!(copy.character_frequency_map.get(&'b'), Some(&1));
    assert_eq!(copy.sha256_hash, result.sha256_hash);
}

#[test]
fn parts_of_the_analysis_agree_with_it() {
    assert!(check_palindrome("Was it a car or a cat I saw"));
    assert_eq!(count_words("one two"), 2);
    assert_eq!(count_unique_characters("hello"), 4);
}

#[test]
fn runs_are_counted_between_gaps() {
    assert_eq!(count_runs(&vec![]), 0);
    assert_eq!(count_runs(&vec![true, true]), 0);
    assert_eq!(count_runs(&vec![false, false, true, false]), 2);
    assert_eq!(count_runs(&vec![true, false, true, true, false, true]), 2);
}

#[test]
fn gaps_are_removed_in_place() {
    let chars = vec!['a', ' ', 'b'];
    assert_eq!(whitespace_flags(&chars), vec![false, true, false]);
    assert_eq!(remove_gaps(&chars, &vec![false, true, false]), vec!['a', 'b']);
    assert_eq!(remove_gaps(&chars, &vec![true, true, true]), Vec::<char>::new());
    assert_eq!(remove_gaps(&chars, &vec![true]), vec![' ', 'b']);
    assert_eq!(remove_gaps(&chars, &vec![false, false, false, true]), vec!['a', ' ', 'b']);
}

#[test]
fn mirrored_sequences_read_the_same_backwards() {
    assert!(is_mirrored(&vec![]));
    assert!(is_mirrored(&vec!['a']));
    assert!(is_mirrored(&vec!['a', 'b', 'a']));
    assert!(!is_mirrored(&vec!['a', 'b']));
}
