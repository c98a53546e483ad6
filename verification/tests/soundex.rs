use agi_thainlp::{lk82, soundex, udom83};

#[test]
fn udom83_rak() {
    assert_eq!(udom83("รัก"), "ร100000");
}

#[test]
fn udom83_lak() {
    assert_eq!(udom83("ลัก"), "ร100000");
}

#[test]
fn udom83_length() {
    assert_eq!(udom83("บูรณการ").chars().count(), 7);
}

#[test]
fn udom83_empty() {
    assert_eq!(udom83(""), "");
}

#[test]
fn lk82_rak() {
    assert_eq!(lk82("รัก"), "ร1000");
}

#[test]
fn lk82_lak() {
    assert_eq!(lk82("ลัก"), "ร1000");
}

#[test]
fn lk82_length() {
    assert_eq!(lk82("บูรณการ").chars().count(), 5);
}

#[test]
fn lk82_empty() {
    assert_eq!(lk82(""), "");
}

#[test]
fn soundex_default_udom83() {
    assert_eq!(soundex("รัก", "udom83"), udom83("รัก"));
}

#[test]
fn soundex_lk82() {
    assert_eq!(soundex("รัก", "lk82"), lk82("รัก"));
}

#[test]
fn lk82_lone_vowel() {
    for t in ["เ", "า", "ะ"] {
        let code = lk82(t);
        assert_eq!(code.chars().count(), 5, "{t}: {code}");
        assert!(code.ends_with("0000"));
        assert_eq!(soundex(t, "lk82"), code);
    }
}

#[test]
fn soundex_other_engine_is_udom83() {
    assert_eq!(soundex("รัก", "other"), udom83("รัก"));
}
