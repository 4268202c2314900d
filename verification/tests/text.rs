//! Text and time helpers.

use play_on_air::clock::{from_millis, from_secs, saturating_duration_since};
use play_on_air::text::{
    chars_of, contains, find, find_char, fold_case, is_whitespace, parse_uint, replace_char, rfind_char, same,
    split_char, split_once, split_whitespace, starts_with, str_eq, string_of, take_word,
    to_ascii_lowercase, to_decimal, trim, trim_dots,
};

#[test]
fn whitespace_is_that_of_the_standard_library() {
    for n in 0..=0x10_FFFF_u32 {
        if let Some(c) = char::from_u32(n) {
            assert_eq!(is_whitespace(c), c.is_whitespace(), "{n:x}");
        }
    }
}

#[test]
fn characters_round_trip() {
    for s in ["", "abc", "caf\u{e9} \u{1f3b5}"] {
        assert_eq!(string_of(&chars_of(s)), s);
        assert!(str_eq(s, &s.to_owned()));
    }
    assert!(!str_eq("a", "b"));
    assert!(same(&['a'], &['a']));
    assert!(!same(&['a'], &['a', 'b']));
}

#[test]
fn trimming_and_words() {
    let s = chars_of(" \t a b\u{3000}c \n");
    assert_eq!(string_of(trim(&s)), "a b\u{3000}c");
    let words: Vec<String> = split_whitespace(&s).iter().map(|w| string_of(w)).collect();
    assert_eq!(words, vec!["a", "b", "c"]);
    assert_eq!(string_of(trim_dots(&chars_of("a.b.."))), "a.b");
    let line = chars_of("word rest of it");
    let (word, rest) = take_word(&line);
    assert_eq!(string_of(word), "word");
    assert_eq!(string_of(trim(rest)), "rest of it");
}

#[test]
fn searching() {
    let s = chars_of("one two two");
    assert_eq!(find(&s, &chars_of("two")), Some(4));
    assert_eq!(find(&s, &chars_of("three")), None);
    assert!(contains(&s, &chars_of("e t")));
    assert!(starts_with(&s, &chars_of("one")));
    assert!(!starts_with(&s, &chars_of("two")));
    assert_eq!(find_char(&s, 't'), Some(4));
    assert_eq!(rfind_char(&s, 't'), Some(8));
}

#[test]
fn splitting_and_replacing() {
    let s = chars_of("a=b=c");
    let (k, v) = split_once(&s, '=').expect("split");
    assert_eq!((string_of(k), string_of(v)), ("a".to_owned(), "b=c".to_owned()));
    assert!(split_once(&s, ';').is_none());
    let parts: Vec<String> = split_char(&s, '=').iter().map(|p| string_of(p)).collect();
    assert_eq!(parts, vec!["a", "b", "c"]);
    assert_eq!(split_char(&[], '=').len(), 1);
    assert_eq!(string_of(&replace_char(&s, '=', ' ')), "a b c");
    assert_eq!(string_of(&to_ascii_lowercase(&chars_of("AbC\u{c9}"))), "abc\u{c9}");
}

#[test]
fn numbers() {
    assert_eq!(parse_uint(&chars_of("8009"), 65_535), Some(8009));
    assert_eq!(parse_uint(&chars_of("65536"), 65_535), None);
    assert_eq!(parse_uint(&chars_of(""), 65_535), None);
    assert_eq!(parse_uint(&chars_of("1a"), 65_535), None);
    for n in [0, 7, 10, 12_345, u64::MAX] {
        assert_eq!(string_of(&to_decimal(n)), n.to_string());
    }
}

#[test]
fn durations() {
    assert_eq!(from_secs(2), from_millis(2_000));
    assert_eq!(saturating_duration_since(10, 4), 6);
    assert_eq!(saturating_duration_since(4, 10), 0);
}

#[test]
fn lower_case_is_taken_letter_by_letter() {
    assert_eq!(string_of(&fold_case(&chars_of("AbC\u{c9} \u{130}1"))), "abc\u{e9} i\u{307}1");
    assert_eq!(string_of(&fold_case(&chars_of("\u{39f}\u{3a3}"))), "\u{3bf}\u{3c3}");
}
