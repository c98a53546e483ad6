//! Thai character constants and the classes of Thai characters that the
//! tokenizers, the soundex codes and the romanizer are written over.
use vstd::prelude::*;

verus! {

/// 44 Thai consonants (พยัญชนะไทย)
pub const THAI_CONSONANTS: &'static str = "กขฃคฅฆงจฉชซฌญฎฏฐฑฒณดตถทธนบปผฝพฟภมยรลวศษสหฬอฮ";

/// 20 Thai vowels (สระไทย)
pub const THAI_VOWELS: &'static str = "\u{0e24}\u{0e26}\u{0e30}\u{0e31}\u{0e32}\u{0e33}\u{0e34}\u{0e35}\u{0e36}\u{0e37}\u{0e38}\u{0e39}\u{0e40}\u{0e41}\u{0e42}\u{0e43}\u{0e44}\u{0e45}\u{0e4d}\u{0e47}";

/// 5 Thai lead vowels (สระนำ): เ แ โ ใ ไ
pub const THAI_LEAD_VOWELS: &'static str = "\u{0e40}\u{0e41}\u{0e42}\u{0e43}\u{0e44}";

/// 4 Thai follow vowels (สระตาม): ะ า ำ ๅ
pub const THAI_FOLLOW_VOWELS: &'static str = "\u{0e30}\u{0e32}\u{0e33}\u{0e45}";

/// 7 Thai above vowels (สระบน)
pub const THAI_ABOVE_VOWELS: &'static str = "\u{0e31}\u{0e34}\u{0e35}\u{0e36}\u{0e37}\u{0e4d}\u{0e47}";

/// 2 Thai below vowels (สระล่าง): ุ ู
pub const THAI_BELOW_VOWELS: &'static str = "\u{0e38}\u{0e39}";

/// 4 Thai tonemarks (วรรณยุกต์)
pub const THAI_TONEMARKS: &'static str = "\u{0e48}\u{0e49}\u{0e4a}\u{0e4b}";

/// 6 Thai signs that can be part of a word
pub const THAI_SIGNS: &'static str = "\u{0e2f}\u{0e3a}\u{0e46}\u{0e4c}\u{0e4d}\u{0e4e}";

/// 3 Thai section markers: ๏ ๚ ๛
pub const THAI_PUNCTUATIONS: &'static str = "\u{0e4f}\u{0e5a}\u{0e5b}";

/// 10 Thai digits: ๐-๙
pub const THAI_DIGITS: &'static str = "๐๑๒๓๔๕๖๗๘๙";

/// Thai Baht symbol ฿
pub const THAI_SYMBOLS: &'static str = "\u{0e3f}";

/// Whether `c` lies in the Thai block U+0E00..U+0E7F.
pub open spec fn thai_block(c: char) -> bool {
    '\u{0e00}' <= c && c <= '\u{0e7f}'
}

/// Whether `c` lies in the consonant range ก..ฮ (U+0E01..U+0E2E), which
/// also holds the vowel letters ฤ and ฦ.
pub open spec fn consonant_range(c: char) -> bool {
    '\u{0e01}' <= c && c <= '\u{0e2e}'
}

/// Whether `c` is one of the 44 consonants of `THAI_CONSONANTS`: the range
/// ก..ฮ without ฤ (U+0E24) and ฦ (U+0E26).
pub open spec fn thai_consonant(c: char) -> bool {
    consonant_range(c) && c != '\u{0e24}' && c != '\u{0e26}'
}

/// Whether `c` is a tonemark (U+0E48..U+0E4B).
pub open spec fn tonemark(c: char) -> bool {
    '\u{0e48}' <= c && c <= '\u{0e4b}'
}

/// Whether `c` is a lead vowel เ แ โ ใ ไ (U+0E40..U+0E44).
pub open spec fn lead_vowel(c: char) -> bool {
    '\u{0e40}' <= c && c <= '\u{0e44}'
}

/// Check whether a Unicode scalar value is in the Thai block (U+0E00–U+0E7F).
pub fn is_thai_char(c: char) -> (r: bool)
    ensures
        r == thai_block(c),
{
    '\u{0e00}' <= c && c <= '\u{0e7f}'
}

/// Executable test of `thai_consonant`.
pub fn is_thai_consonant(c: char) -> (r: bool)
    ensures
        r == thai_consonant(c),
{
    '\u{0e01}' <= c && c <= '\u{0e2e}' && c != '\u{0e24}' && c != '\u{0e26}'
}

/// Check whether a string contains any Thai character.
pub fn contains_thai(s: &str) -> (r: bool)
    ensures
        r == exists|i: int| 0 <= i < s@.len() && thai_block(#[trigger] s@[i]),
{
    let mut found = false;
    for c in it: s.chars()
        invariant
            it.seq() == s@,
            found == exists|i: int| 0 <= i < it.index() && thai_block(#[trigger] s@[i]),
    {
        let t = is_thai_char(c);
        proof {
            assert(c == s@[it.index() as int]);
        }
        found = found || t;
    }
    found
}

/// `thai_consonant` holds of exactly the 44 letters of `THAI_CONSONANTS`.
#[verifier::rlimit(50)]
pub proof fn lemma_thai_consonants_listed(c: char)
    ensures
        thai_consonant(c) <==> THAI_CONSONANTS@.contains(c),
{
    reveal_strlit("กขฃคฅฆงจฉชซฌญฎฏฐฑฒณดตถทธนบปผฝพฟภมยรลวศษสหฬอฮ");
    let t = THAI_CONSONANTS@;
    assert(t.len() == 44);
    if thai_consonant(c) {
        assert(c == 'ก' || c == 'ข' || c == 'ฃ' || c == 'ค' || c == 'ฅ' || c == 'ฆ' || c == 'ง' || c == 'จ' || c == 'ฉ' || c == 'ช' || c == 'ซ' || c == 'ฌ' || c == 'ญ' || c == 'ฎ' || c == 'ฏ' || c == 'ฐ' || c == 'ฑ' || c == 'ฒ' || c == 'ณ' || c == 'ด' || c == 'ต' || c == 'ถ' || c == 'ท' || c == 'ธ' || c == 'น' || c == 'บ' || c == 'ป' || c == 'ผ' || c == 'ฝ' || c == 'พ' || c == 'ฟ' || c == 'ภ' || c == 'ม' || c == 'ย' || c == 'ร' || c == 'ล' || c == 'ว' || c == 'ศ' || c == 'ษ' || c == 'ส' || c == 'ห' || c == 'ฬ' || c == 'อ' || c == 'ฮ');
        if c == 'ก' {
            assert(t[0] == c);
        }
        if c == 'ข' {
            assert(t[1] == c);
        }
        if c == 'ฃ' {
            assert(t[2] == c);
        }
        if c == 'ค' {
            assert(t[3] == c);
        }
        if c == 'ฅ' {
            assert(t[4] == c);
        }
        if c == 'ฆ' {
            assert(t[5] == c);
        }
        if c == 'ง' {
            assert(t[6] == c);
        }
        if c == 'จ' {
            assert(t[7] == c);
        }
        if c == 'ฉ' {
            assert(t[8] == c);
        }
        if c == 'ช' {
            assert(t[9] == c);
        }
        if c == 'ซ' {
            assert(t[10] == c);
        }
        if c == 'ฌ' {
            assert(t[11] == c);
        }
        if c == 'ญ' {
            assert(t[12] == c);
        }
        if c == 'ฎ' {
            assert(t[13] == c);
        }
        if c == 'ฏ' {
            assert(t[14] == c);
        }
        if c == 'ฐ' {
            assert(t[15] == c);
        }
        if c == 'ฑ' {
            assert(t[16] == c);
        }
        if c == 'ฒ' {
            assert(t[17] == c);
        }
        if c == 'ณ' {
            assert(t[18] == c);
        }
        if c == 'ด' {
            assert(t[19] == c);
        }
        if c == 'ต' {
            assert(t[20] == c);
        }
        if c == 'ถ' {
            assert(t[21] == c);
        }
        if c == 'ท' {
            assert(t[22] == c);
        }
        if c == 'ธ' {
            assert(t[23] == c);
        }
        if c == 'น' {
            assert(t[24] == c);
        }
        if c == 'บ' {
            assert(t[25] == c);
        }
        if c == 'ป' {
            assert(t[26] == c);
        }
        if c == 'ผ' {
            assert(t[27] == c);
        }
        if c == 'ฝ' {
            assert(t[28] == c);
        }
        if c == 'พ' {
            assert(t[29] == c);
        }
        if c == 'ฟ' {
            assert(t[30] == c);
        }
        if c == 'ภ' {
            assert(t[31] == c);
        }
        if c == 'ม' {
            assert(t[32] == c);
        }
        if c == 'ย' {
            assert(t[33] == c);
        }
        if c == 'ร' {
            assert(t[34] == c);
        }
        if c == 'ล' {
            assert(t[35] == c);
        }
        if c == 'ว' {
            assert(t[36] == c);
        }
        if c == 'ศ' {
            assert(t[37] == c);
        }
        if c == 'ษ' {
            assert(t[38] == c);
        }
        if c == 'ส' {
            assert(t[39] == c);
        }
        if c == 'ห' {
            assert(t[40] == c);
        }
        if c == 'ฬ' {
            assert(t[41] == c);
        }
        if c == 'อ' {
            assert(t[42] == c);
        }
        if c == 'ฮ' {
            assert(t[43] == c);
        }
    }
    if t.contains(c) {
        let i = choose|i: int| 0 <= i < t.len() && t[i] == c;
        assert(thai_consonant(t[i])) by {
            assert(forall|k: int| 0 <= k < 44 ==> thai_consonant(#[trigger] t[k]));
        }
    }
}

} // verus!
