use agi_thainlp::{sent_tokenize, syllable_tokenize, tcc_tokenize};

#[test]
fn tcc_basic() {
    let result = tcc_tokenize("กา");
    assert_eq!(result, vec!["กา"]);
}

#[test]
fn tcc_two_syllables() {
    let result = tcc_tokenize("กาแฟ");
    assert!(result.contains(&"กา".to_string()));
    assert!(result.contains(&"แฟ".to_string()));
}

#[test]
fn tcc_empty() {
    assert!(tcc_tokenize("").is_empty());
}

#[test]
fn tcc_reconstruct() {
    let text = "ภาษาไทย";
    let tokens = tcc_tokenize(text);
    assert_eq!(tokens.join(""), text);
}

#[test]
fn tcc_non_thai() {
    let result = tcc_tokenize("abc");
    assert_eq!(result, vec!["a", "b", "c"]);
}

#[test]
fn syllable_tokenize_alias() {
    let text = "ประเทศ";
    assert_eq!(syllable_tokenize(text), tcc_tokenize(text));
}

// --- NewMM tests ---

use agi_thainlp::tokenize::sentence_break;
use agi_thainlp::word_tokenize;

#[test]
fn word_tokenize_empty() {
    assert!(word_tokenize("", None, false).is_empty());
}

#[test]
fn word_tokenize_reconstruct() {
    let text = "ผมชอบกินข้าว";
    let tokens = word_tokenize(text, None, false);
    assert_eq!(tokens.join(""), text);
}

#[test]
fn word_tokenize_known_words() {
    let tokens = word_tokenize("วันนี้ดีมาก", None, false);
    assert!(tokens.contains(&"วันนี้".to_string()));
    // 'ดีมาก' may be one token (in dict) or two ('ดี' + 'มาก')
    assert!(
        tokens.iter().any(|t| t == "ดีมาก" || t == "ดี"),
        "expected ดีมาก or ดี in {tokens:?}"
    );
    assert_eq!(tokens.join(""), "วันนี้ดีมาก");
}

#[test]
fn word_tokenize_custom_dict() {
    let dict = &["ประเทศไทย", "สวยงาม"];
    let tokens = word_tokenize("ประเทศไทยสวยงาม", Some(dict), false);
    assert!(tokens.contains(&"ประเทศไทย".to_string()));
    assert!(tokens.contains(&"สวยงาม".to_string()));
}

#[test]
fn word_tokenize_whitespace_preserved() {
    let tokens = word_tokenize("I love กาแฟ", None, true);
    assert!(tokens.contains(&" ".to_string()));
}

#[test]
fn word_tokenize_whitespace_dropped() {
    let tokens = word_tokenize("I love กาแฟ", None, false);
    assert!(!tokens.contains(&" ".to_string()));
}

#[test]
fn word_tokenize_mixed() {
    let tokens = word_tokenize("I love ข้าวผัด", None, false);
    assert!(tokens.contains(&"I".to_string()));
    assert!(tokens.contains(&"love".to_string()));
}

#[test]
fn word_tokenize_tcc_fallback() {
    // Empty custom dict → TCC fallback
    let tokens = word_tokenize("กาแฟ", Some(&[]), false);
    assert!(!tokens.is_empty());
    assert_eq!(tokens.join(""), "กาแฟ");
    assert!(tokens.len() <= 2); // at most 2 TCC units
}

#[test]
fn word_tokenize_readme_example() {
    let tokens = word_tokenize("ผมชอบกินข้าว", None, false);
    assert_eq!(tokens, vec!["ผม", "ชอบ", "กิน", "ข้าว"]);
}

#[test]
fn sent_basic() {
    let result = sent_tokenize("I love cats. Do you?");
    assert_eq!(result, vec!["I love cats.", "Do you?"]);
}

#[test]
fn sent_empty() {
    assert!(sent_tokenize("").is_empty());
}

#[test]
fn sent_newline() {
    let result = sent_tokenize("line one\nline two");
    assert_eq!(result.len(), 2);
}

#[test]
fn sent_single() {
    let result = sent_tokenize("วันนี้ฉันไปตลาด");
    assert_eq!(result, vec!["วันนี้ฉันไปตลาด"]);
}

#[test]
fn sent_split_needs_capital_or_thai() {
    assert_eq!(sent_tokenize("I love cats. do you?"), vec!["I love cats. do you?"]);
    assert_eq!(sent_tokenize("Fine. Émile came."), vec!["Fine.", "Émile came."]);
    assert_eq!(sent_tokenize("ok! กาแฟ"), vec!["ok!", "กาแฟ"]);
}

#[test]
fn sent_thai_end_markers() {
    assert_eq!(sent_tokenize("กาฯ ขา"), vec!["กาฯ", "ขา"]);
    assert_eq!(sent_tokenize("หนึ่ง๚\nสอง"), vec!["หนึ่ง๚", "สอง"]);
}

#[test]
fn sent_trimmed_and_line_breaks() {
    assert_eq!(sent_tokenize("  hello  "), vec!["hello"]);
    assert_eq!(sent_tokenize("\u{3000}กา\u{3000}"), vec!["กา"]);
    assert_eq!(sent_tokenize("a\r\n\r\nb\n\n"), vec!["a", "b"]);
    assert!(sent_tokenize(" \n \n").is_empty());
}

#[test]
fn sentences_have_no_line_breaks() {
    for s in sent_tokenize("one. Two\nthree๛ four\r\nห้า") {
        assert!(!s.is_empty());
        assert!(!s.contains('\n') && !s.contains('\r'));
        assert_eq!(s.trim(), s);
    }
}

#[test]
fn word_tokens_cover_text() {
    let text = "I  love\tกาแฟ\nมาก!";
    let kept = word_tokenize(text, None, true);
    assert_eq!(kept.concat(), text);
    let dropped = word_tokenize(text, None, false);
    let expected: String = text.chars().filter(|c| !matches!(c, ' ' | '\t' | '\n' | '\r')).collect();
    assert_eq!(dropped.concat(), expected);
    assert!(kept.contains(&"  ".to_string()));
    assert!(kept.contains(&"\n".to_string()));
}

#[test]
fn word_tokenize_fewest_pieces() {
    let dict = &["ประ", "เทศ", "ประเทศ"];
    assert_eq!(word_tokenize("ประเทศ", Some(dict), false), vec!["ประเทศ"]);
}

#[test]
fn word_tokenize_other_runs_whole() {
    assert_eq!(word_tokenize("abc123 x", Some(&[]), true), vec!["abc123", " ", "x"]);
}

#[test]
fn sentence_break_decision() {
    assert!(sentence_break('.', ' ', 'D', true));
    assert!(sentence_break('?', ' ', 'ก', false));
    assert!(!sentence_break('.', ' ', 'd', false));
    assert!(!sentence_break('.', 'x', 'D', true));
    assert!(!sentence_break(',', ' ', 'D', true));
}

#[test]
fn none_is_the_builtin_list() {
    let words = agi_thainlp::dictionary::builtin_words();
    assert!(words.contains(&"วันนี้".to_string()));
    let refs: Vec<&str> = words.iter().map(|w| w.as_str()).collect();
    for (text, keep) in [("ผมชอบกินข้าวผัด", false), ("I love กาแฟ มาก", true), ("วันนี้ดีมาก", false)] {
        assert_eq!(word_tokenize(text, None, keep), word_tokenize(text, Some(&refs), keep));
    }
}
