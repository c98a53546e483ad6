//! Thai natural-language processing: character classes, character-cluster,
//! sentence and word tokenization, romanization, soundex codes, collation
//! and number words, each with a specification that Verus checks.
pub mod characters;
pub mod text;
pub mod rewrite;
pub mod rules;
pub mod soundex;
pub mod tcc;
pub mod tokenize;
pub mod util;
pub mod trie;
pub mod newmm;
pub mod dictionary;
pub mod numbers;
pub mod transliterate;

pub use crate::characters::{
    contains_thai, is_thai_char, THAI_ABOVE_VOWELS, THAI_BELOW_VOWELS, THAI_CONSONANTS,
    THAI_DIGITS, THAI_FOLLOW_VOWELS, THAI_LEAD_VOWELS, THAI_PUNCTUATIONS, THAI_SIGNS,
    THAI_SYMBOLS, THAI_TONEMARKS, THAI_VOWELS,
};
pub use crate::soundex::{lk82, soundex, udom83};
pub use crate::numbers::{num_to_thaiword, thaiword_to_num};
pub use crate::transliterate::romanize;
pub use crate::tokenize::{sent_tokenize, syllable_tokenize, tcc_tokenize, word_tokenize};
pub use crate::util::{
    arabic_digit_to_thai_digit, collate, remove_tonemark, thai_digit_to_arabic_digit,
};
