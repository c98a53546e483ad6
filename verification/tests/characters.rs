use agi_thainlp::{
    contains_thai, is_thai_char, THAI_CONSONANTS, THAI_DIGITS, THAI_LEAD_VOWELS, THAI_TONEMARKS,
    THAI_VOWELS,
};

#[test]
fn consonants_count() {
    assert_eq!(THAI_CONSONANTS.chars().count(), 44);
}

#[test]
fn vowels_count() {
    assert_eq!(THAI_VOWELS.chars().count(), 20);
}

#[test]
fn lead_vowels_count() {
    assert_eq!(THAI_LEAD_VOWELS.chars().count(), 5);
}

#[test]
fn tonemarks_count() {
    assert_eq!(THAI_TONEMARKS.chars().count(), 4);
}

#[test]
fn digits_count() {
    assert_eq!(THAI_DIGITS.chars().count(), 10);
}

#[test]
fn is_thai_char_test() {
    assert!(is_thai_char('ก'));
    assert!(is_thai_char('ฮ'));
    assert!(!is_thai_char('a'));
    assert!(!is_thai_char('A'));
}

#[test]
fn contains_thai_test() {
    assert!(contains_thai("กาแฟ"));
    assert!(!contains_thai("hello"));
    assert!(contains_thai("hello กา"));
}
