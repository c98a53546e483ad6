use agi_thainlp::{arabic_digit_to_thai_digit, collate, remove_tonemark, thai_digit_to_arabic_digit};

#[test]
fn collate_basic() {
    let words = vec!["ไก่", "เกิด", "กาล"];
    let sorted = collate(&words, false);
    assert_eq!(sorted[0], "กาล");
}

#[test]
fn collate_reverse() {
    let words = vec!["ก", "ข", "ค"];
    let sorted = collate(&words, true);
    assert_eq!(sorted[0], "ค");
}

#[test]
fn collate_full_order() {
    // keys: กาล, กเิด, กไ (tonemark dropped, lead vowel moved after the consonant)
    let words = vec!["ไก่", "เกิด", "กาล"];
    assert_eq!(collate(&words, false), vec!["กาล", "เกิด", "ไก่"]);
    assert_eq!(collate(&words, true), vec!["ไก่", "เกิด", "กาล"]);
}

#[test]
fn collate_equal_keys_keep_order() {
    // ก่า and ก้า both have the key กา
    let words = vec!["ก้า", "ข", "ก่า"];
    assert_eq!(collate(&words, false), vec!["ก้า", "ก่า", "ข"]);
}

#[test]
fn collate_empty() {
    let words: Vec<&str> = vec![];
    assert!(collate(&words, false).is_empty());
    assert!(collate(&words, true).is_empty());
}

#[test]
fn collate_keeps_every_word() {
    let words = vec!["ค", "ก", "ข", "ก"];
    let sorted = collate(&words, false);
    assert_eq!(sorted, vec!["ก", "ก", "ข", "ค"]);
}

#[test]
fn thai_to_arabic() {
    assert_eq!(thai_digit_to_arabic_digit("๑๒๓"), "123");
}

#[test]
fn arabic_to_thai() {
    assert_eq!(arabic_digit_to_thai_digit("123"), "๑๒๓");
}

#[test]
fn digits_mixed_text_untouched() {
    assert_eq!(thai_digit_to_arabic_digit("ปี ๒๕๖๗ a"), "ปี 2567 a");
    assert_eq!(arabic_digit_to_thai_digit("ปี 2567 a"), "ปี ๒๕๖๗ a");
    assert_eq!(thai_digit_to_arabic_digit(""), "");
}

#[test]
fn digits_round_trip() {
    let t = "เลข 0123456789 x";
    assert_eq!(thai_digit_to_arabic_digit(&arabic_digit_to_thai_digit(t)), t);
    let u = "เลข ๐๑๒๓๔๕๖๗๘๙ x";
    assert_eq!(arabic_digit_to_thai_digit(&thai_digit_to_arabic_digit(u)), u);
}

#[test]
fn remove_tone_basic() {
    assert_eq!(remove_tonemark("น้ำ"), "นำ");
    assert_eq!(remove_tonemark("ข้าว"), "ขาว");
}

#[test]
fn remove_tone_all_four_marks() {
    assert_eq!(remove_tonemark("ก่ก้ก๊ก๋ก็ก์"), "กกกกก็ก์");
    assert_eq!(remove_tonemark("abc"), "abc");
}
