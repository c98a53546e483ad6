use agi_thainlp::numbers::chunk_to_thaiword;
use agi_thainlp::{num_to_thaiword, thaiword_to_num};

#[test]
fn num_zero() {
    assert_eq!(num_to_thaiword(0), "ศูนย์");
}

#[test]
fn num_ten() {
    assert_eq!(num_to_thaiword(10), "สิบ");
}

#[test]
fn num_twenty_one() {
    assert_eq!(num_to_thaiword(21), "ยี่สิบเอ็ด");
}

#[test]
fn num_million() {
    assert_eq!(num_to_thaiword(1_000_000), "หนึ่งล้าน");
}

#[test]
fn num_composite_values() {
    assert_eq!(num_to_thaiword(11), "สิบเอ็ด");
    assert_eq!(num_to_thaiword(101), "หนึ่งร้อยหนึ่ง");
    assert_eq!(num_to_thaiword(345), "สามร้อยสี่สิบห้า");
    assert_eq!(num_to_thaiword(123_456), "หนึ่งแสนสองหมื่นสามพันสี่ร้อยห้าสิบหก");
    assert_eq!(num_to_thaiword(2_000_021), "สองล้านยี่สิบเอ็ด");
    assert_eq!(num_to_thaiword(999_999_999_999), "เก้าแสนเก้าหมื่นเก้าพันเก้าร้อยเก้าสิบเก้าล้านเก้าแสนเก้าหมื่นเก้าพันเก้าร้อยเก้าสิบเก้า");
}

#[test]
fn thaiword_twenty_one() {
    assert_eq!(thaiword_to_num("ยี่สิบเอ็ด"), Some(21));
}

#[test]
fn thaiword_hundred_fifty() {
    assert_eq!(thaiword_to_num("หนึ่งร้อยห้าสิบ"), Some(150));
}

#[test]
fn thaiword_rejects() {
    assert_eq!(thaiword_to_num(""), None);
    assert_eq!(thaiword_to_num("abc"), None);
    assert_eq!(thaiword_to_num("สิบx"), None);
}

#[test]
fn thaiword_bare_multipliers() {
    assert_eq!(thaiword_to_num("สิบ"), Some(10));
    assert_eq!(thaiword_to_num("ล้าน"), Some(1_000_000));
    assert_eq!(thaiword_to_num("ร้อยล้าน"), Some(100_000_000));
    assert_eq!(thaiword_to_num("สองล้านห้า"), Some(2_000_005));
}

#[test]
fn number_words_round_trip() {
    for n in [0u64, 1, 7, 10, 11, 20, 21, 99, 100, 101, 1_000, 10_001, 123_456, 1_000_000, 1_000_001, 54_321_098_765, 999_999_999_999, 1_000_000_000_000, 2_000_000_300_000_000, u64::MAX] {
        assert_eq!(thaiword_to_num(&num_to_thaiword(n)), Some(n), "n = {n}");
    }
}

#[test]
fn million_millions() {
    assert_eq!(thaiword_to_num("หนึ่งล้านล้าน"), Some(1_000_000_000_000));
    assert_eq!(num_to_thaiword(1_000_000_000_000), "หนึ่งล้านล้าน");
    assert_eq!(thaiword_to_num("สองแสนล้าน"), Some(200_000_000_000));
    assert_eq!(thaiword_to_num("หนึ่งล้านสองแสน"), Some(1_200_000));
}

#[test]
fn thaiword_overflow_is_none() {
    assert_eq!(thaiword_to_num("ล้านล้านล้านล้าน"), None);
    assert_eq!(thaiword_to_num("ล้านล้านล้าน"), Some(1_000_000_000_000_000_000));
}

#[test]
fn chunk_words() {
    assert!(chunk_to_thaiword(0).is_empty());
    let w: String = chunk_to_thaiword(21).into_iter().collect();
    assert_eq!(w, "ยี่สิบเอ็ด");
    let w: String = chunk_to_thaiword(999_999).into_iter().collect();
    assert_eq!(w, num_to_thaiword(999_999));
}
