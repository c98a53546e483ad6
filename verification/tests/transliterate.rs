use agi_thainlp::romanize;

#[test]
fn romanize_empty() {
    assert_eq!(romanize(""), "");
}

#[test]
fn romanize_non_thai() {
    assert_eq!(romanize("hello"), "hello");
}

#[test]
fn romanize_basic_ka() {
    let r = romanize("กา");
    assert!(r.contains('k'), "expected 'k' in '{r}'");
}

#[test]
fn romanize_mixed() {
    let r = romanize("กา hello");
    assert!(r.contains("hello"));
}

#[test]
fn romanize_kafae() {
    let r = romanize("กาแฟ");
    assert!(r.contains('k') && r.contains('f'), "got: {r}");
}

#[test]
fn romanize_exact_words() {
    assert_eq!(romanize("กาแฟ"), "kafae");
    assert_eq!(romanize("กา"), "ka");
    assert_eq!(romanize("รัก"), "rak");
    assert_eq!(romanize("กา hello"), "ka hello");
}

#[test]
fn romanize_lone_ho_hip_is_silent() {
    assert_eq!(romanize("ห"), "");
}

#[test]
fn romanize_keeps_text_without_thai() {
    let t = "Hello, world! 123 ÄÖ";
    assert_eq!(romanize(t), t);
}


#[test]
fn romanize_joins_at_non_thai() {
    assert_eq!(romanize("กา hello"), romanize("กา") + &romanize(" hello"));
    assert_eq!(romanize("a กาแฟ b รัก"), romanize("a กาแฟ") + &romanize(" b รัก"));
}
