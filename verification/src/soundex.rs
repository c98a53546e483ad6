//! Thai soundex codes: Udom83 (seven characters) and LK82 (five characters).
//!
//! * Udom83: Wannee Udompanich (1983), 7-character code.
//! * LK82: Vichit Lorchirachoonkul (1982), 5-character code.
use vstd::prelude::*;
use crate::characters::consonant_range;
use crate::rewrite::{apply_rule, rewrite};
use crate::rules::{
    lk82_karant_rule, lk82_sign_rule, make_lk82_karant_rule, make_lk82_sign_rule,
    make_tonemark_rule, make_u83_rule_1, make_u83_rule_10, make_u83_rule_11, make_u83_rule_2,
    make_u83_rule_3, make_u83_rule_4, make_u83_rule_5, make_u83_rule_6, make_u83_rule_7,
    make_u83_rule_8, make_u83_rule_9, tonemark_rule, u83_rule_1, u83_rule_10, u83_rule_11,
    u83_rule_2, u83_rule_3, u83_rule_4, u83_rule_5, u83_rule_6, u83_rule_7, u83_rule_8,
    u83_rule_9,
};
use crate::text::{str_chars, string_of, string_of_range};

verus! {

/// Udom83 letter class of the first character.
pub open spec fn u83_first(c: char) -> char {
    match c {
        'ก' => 'ก',
        'ข' | 'ฃ' | 'ค' | 'ฅ' | 'ฆ' => 'ข',
        'ง' => 'ง',
        'จ' => 'จ',
        'ฉ' | 'ช' | 'ฌ' => 'ช',
        'ซ' | 'ศ' | 'ษ' | 'ส' => 'ส',
        'ฎ' | 'ด' => 'ด',
        'ฏ' | 'ต' => 'ต',
        'ฐ' | 'ฑ' | 'ฒ' | 'ถ' | 'ท' | 'ธ' => 'ท',
        'ณ' | 'น' => 'น',
        'บ' => 'บ',
        'ป' => 'ป',
        'ผ' | 'พ' | 'ภ' => 'พ',
        'ฝ' | 'ฟ' => 'ฟ',
        'ม' => 'ม',
        'ญ' | 'ย' => 'ย',
        'ร' | 'ล' | 'ฬ' | 'ฤ' | 'ฦ' => 'ร',
        'ว' => 'ว',
        'อ' => 'อ',
        'ห' | 'ฮ' => 'ฮ',
        _ => c,
    }
}

/// Computes `u83_first`.
pub fn u83_translate1(c: char) -> (r: char)
    ensures
        r == u83_first(c),
{
    match c {
        'ก' => 'ก',
        'ข' | 'ฃ' | 'ค' | 'ฅ' | 'ฆ' => 'ข',
        'ง' => 'ง',
        'จ' => 'จ',
        'ฉ' | 'ช' | 'ฌ' => 'ช',
        'ซ' | 'ศ' | 'ษ' | 'ส' => 'ส',
        'ฎ' | 'ด' => 'ด',
        'ฏ' | 'ต' => 'ต',
        'ฐ' | 'ฑ' | 'ฒ' | 'ถ' | 'ท' | 'ธ' => 'ท',
        'ณ' | 'น' => 'น',
        'บ' => 'บ',
        'ป' => 'ป',
        'ผ' | 'พ' | 'ภ' => 'พ',
        'ฝ' | 'ฟ' => 'ฟ',
        'ม' => 'ม',
        'ญ' | 'ย' => 'ย',
        'ร' | 'ล' | 'ฬ' | 'ฤ' | 'ฦ' => 'ร',
        'ว' => 'ว',
        'อ' => 'อ',
        'ห' | 'ฮ' => 'ฮ',
        _ => c,
    }
}

/// Udom83 digit of a character after the first.
pub open spec fn u83_rest(c: char) -> char {
    match c {
        'ม' | 'ว' | '\u{0e33}' => '0',
        'ก' | 'ข' | 'ฃ' | 'ค' | 'ฅ' | 'ฆ' => '1',
        'ง' => '2',
        'ย' | 'ญ' => '2',
        'ณ' | 'น' => '3',
        'ฎ' | 'ฏ' | 'ด' | 'ต' => '4',
        'ศ' | 'ษ' | 'ส' => '4',
        'บ' | 'ป' => '5',
        'พ' | 'ภ' | 'ผ' => '5',
        'ฝ' | 'ฟ' => '5',
        'ห' | 'อ' | 'ฮ' => '6',
        'จ' | 'ฉ' | 'ช' | 'ซ' | 'ฌ' => '7',
        'ฐ' | 'ฑ' | 'ฒ' | 'ถ' | 'ท' | 'ธ' => '8',
        'ร' | 'ฤ' | 'ล' | 'ฦ' => '9',
        _ => c,
    }
}

/// Computes `u83_rest`.
pub fn u83_translate2(c: char) -> (r: char)
    ensures
        r == u83_rest(c),
{
    match c {
        'ม' | 'ว' | '\u{0e33}' => '0',
        'ก' | 'ข' | 'ฃ' | 'ค' | 'ฅ' | 'ฆ' => '1',
        'ง' => '2',
        'ย' | 'ญ' => '2',
        'ณ' | 'น' => '3',
        'ฎ' | 'ฏ' | 'ด' | 'ต' => '4',
        'ศ' | 'ษ' | 'ส' => '4',
        'บ' | 'ป' => '5',
        'พ' | 'ภ' | 'ผ' => '5',
        'ฝ' | 'ฟ' => '5',
        'ห' | 'อ' | 'ฮ' => '6',
        'จ' | 'ฉ' | 'ช' | 'ซ' | 'ฌ' => '7',
        'ฐ' | 'ฑ' | 'ฒ' | 'ถ' | 'ท' | 'ธ' => '8',
        'ร' | 'ฤ' | 'ล' | 'ฦ' => '9',
        _ => c,
    }
}

/// LK82 letter class of the leading consonant.
pub open spec fn lk82_first(c: char) -> char {
    match c {
        'ก' | 'ข' | 'ฃ' | 'ค' | 'ฅ' | 'ฆ' => 'ก',
        'ง' => 'ง',
        'จ' => 'จ',
        'ฉ' | 'ช' | 'ฌ' => 'ช',
        'ซ' | 'ศ' | 'ษ' | 'ส' => 'ซ',
        'ญ' | 'ย' => 'ย',
        'ฎ' | 'ด' => 'ด',
        'ฏ' | 'ต' => 'ต',
        'ณ' | 'น' => 'น',
        'ฐ' | 'ฑ' | 'ฒ' | 'ถ' | 'ท' | 'ธ' => 'ท',
        'บ' | 'ป' => 'บ',
        'ผ' | 'พ' | 'ภ' => 'พ',
        'ฝ' | 'ฟ' => 'ฟ',
        'ม' => 'ม',
        'ร' | 'ล' | 'ฬ' | 'ฤ' | 'ฦ' => 'ร',
        'ว' => 'ว',
        'ห' | 'ฮ' => 'ห',
        'อ' => 'อ',
        _ => c,
    }
}

/// Computes `lk82_first`.
pub fn lk82_trans1(c: char) -> (r: char)
    ensures
        r == lk82_first(c),
{
    match c {
        'ก' | 'ข' | 'ฃ' | 'ค' | 'ฅ' | 'ฆ' => 'ก',
        'ง' => 'ง',
        'จ' => 'จ',
        'ฉ' | 'ช' | 'ฌ' => 'ช',
        'ซ' | 'ศ' | 'ษ' | 'ส' => 'ซ',
        'ญ' | 'ย' => 'ย',
        'ฎ' | 'ด' => 'ด',
        'ฏ' | 'ต' => 'ต',
        'ณ' | 'น' => 'น',
        'ฐ' | 'ฑ' | 'ฒ' | 'ถ' | 'ท' | 'ธ' => 'ท',
        'บ' | 'ป' => 'บ',
        'ผ' | 'พ' | 'ภ' => 'พ',
        'ฝ' | 'ฟ' => 'ฟ',
        'ม' => 'ม',
        'ร' | 'ล' | 'ฬ' | 'ฤ' | 'ฦ' => 'ร',
        'ว' => 'ว',
        'ห' | 'ฮ' => 'ห',
        'อ' => 'อ',
        _ => c,
    }
}

/// LK82 code of a character after the leading consonant.
pub open spec fn lk82_rest(c: char) -> char {
    match c {
        'ก' | 'ข' | 'ฃ' | 'ค' | 'ฅ' | 'ฆ' => '1',
        'ง' => '2',
        'จ' | 'ฉ' | 'ช' | 'ซ' | 'ฌ' => '3',
        'ฎ' | 'ฏ' | 'ฐ' | 'ฑ' | 'ฒ' | 'ด' | 'ต' | 'ถ' | 'ท' | 'ธ' => '3',
        'ศ' | 'ษ' | 'ส' => '3',
        'ญ' | 'ณ' | 'น' => '4',
        'ร' | 'ล' | 'ฬ' | 'ฤ' | 'ฦ' => '4',
        'บ' | 'ป' | 'พ' | 'ฟ' | 'ภ' | 'ผ' | 'ฝ' => '5',
        'ม' => '6',
        '\u{0e33}' => '6',
        'ย' | 'ว' => '7',
        '\u{0e44}' | '\u{0e43}' => '7',
        'ห' | 'ฮ' => '8',
        '\u{0e32}' | '\u{0e45}' => '9',
        '\u{0e36}' | '\u{0e37}' => 'A',
        '\u{0e40}' | '\u{0e41}' => 'B',
        '\u{0e42}' => 'C',
        '\u{0e38}' | '\u{0e39}' => 'D',
        'อ' => 'E',
        _ => c,
    }
}

/// Computes `lk82_rest`.
pub fn lk82_trans2(c: char) -> (r: char)
    ensures
        r == lk82_rest(c),
{
    match c {
        'ก' | 'ข' | 'ฃ' | 'ค' | 'ฅ' | 'ฆ' => '1',
        'ง' => '2',
        'จ' | 'ฉ' | 'ช' | 'ซ' | 'ฌ' => '3',
        'ฎ' | 'ฏ' | 'ฐ' | 'ฑ' | 'ฒ' | 'ด' | 'ต' | 'ถ' | 'ท' | 'ธ' => '3',
        'ศ' | 'ษ' | 'ส' => '3',
        'ญ' | 'ณ' | 'น' => '4',
        'ร' | 'ล' | 'ฬ' | 'ฤ' | 'ฦ' => '4',
        'บ' | 'ป' | 'พ' | 'ฟ' | 'ภ' | 'ผ' | 'ฝ' => '5',
        'ม' => '6',
        '\u{0e33}' => '6',
        'ย' | 'ว' => '7',
        '\u{0e44}' | '\u{0e43}' => '7',
        'ห' | 'ฮ' => '8',
        '\u{0e32}' | '\u{0e45}' => '9',
        '\u{0e36}' | '\u{0e37}' => 'A',
        '\u{0e40}' | '\u{0e41}' => 'B',
        '\u{0e42}' => 'C',
        '\u{0e38}' | '\u{0e39}' => 'D',
        'อ' => 'E',
        _ => c,
    }
}

// ---------------------------------------------------------------------------
// Udom83
// ---------------------------------------------------------------------------

/// The Udom83 normalization of `s`: the eleven rewriting rules in order.
pub open spec fn u83_normalize(s: Seq<char>) -> Seq<char> {
    let s = rewrite(u83_rule_1(), s);
    let s = rewrite(u83_rule_2(), s);
    let s = rewrite(u83_rule_3(), s);
    let s = rewrite(u83_rule_4(), s);
    let s = rewrite(u83_rule_5(), s);
    let s = rewrite(u83_rule_6(), s);
    let s = rewrite(u83_rule_7(), s);
    let s = rewrite(u83_rule_8(), s);
    let s = rewrite(u83_rule_9(), s);
    let s = rewrite(u83_rule_10(), s);
    rewrite(u83_rule_11(), s)
}

/// `n` copies of the digit zero.
pub open spec fn zeros(n: nat) -> Seq<char> {
    Seq::new(n, |i: int| '0')
}

/// The Udom83 code of `s`: the class of the first normalized character, the
/// digits of the others, padded with zeros and cut to seven characters; empty
/// where nothing is left after normalization.
pub open spec fn udom83_code(s: Seq<char>) -> Seq<char> {
    let t = u83_normalize(s);
    if t.len() == 0 {
        Seq::empty()
    } else {
        (seq![u83_first(t[0])] + t.skip(1).map_values(|c: char| u83_rest(c)) + zeros(6)).take(7)
    }
}

/// Convert Thai text to Udom83 soundex code (7 characters).
pub fn udom83(text: &str) -> (r: String)
    ensures
        r@ == udom83_code(text@),
        r@.len() == 0 || r@.len() == 7,
{
    let v = str_chars(text);
    let s = apply_rule(&make_u83_rule_1(), &v);
    let s = apply_rule(&make_u83_rule_2(), &s);
    let s = apply_rule(&make_u83_rule_3(), &s);
    let s = apply_rule(&make_u83_rule_4(), &s);
    let s = apply_rule(&make_u83_rule_5(), &s);
    let s = apply_rule(&make_u83_rule_6(), &s);
    let s = apply_rule(&make_u83_rule_7(), &s);
    let s = apply_rule(&make_u83_rule_8(), &s);
    let s = apply_rule(&make_u83_rule_9(), &s);
    let s = apply_rule(&make_u83_rule_10(), &s);
    let s = apply_rule(&make_u83_rule_11(), &s);
    if s.len() == 0 {
        return String::new();
    }
    let mut code: Vec<char> = Vec::new();
    code.push(u83_translate1(s[0]));
    let mut i: usize = 1;
    while i < s.len()
        invariant
            1 <= i <= s@.len(),
            code@ == seq![u83_first(s@[0])] + s@.subrange(1, i as int).map_values(
                |c: char| u83_rest(c),
            ),
        decreases s.len() - i,
    {
        code.push(u83_translate2(s[i]));
        i = i + 1;
        assert(code@ =~= seq![u83_first(s@[0])] + s@.subrange(1, i as int).map_values(
            |c: char| u83_rest(c),
        ));
    }
    let ghost body = code@;
    let mut k: usize = 0;
    while k < 6
        invariant
            k <= 6,
            code@ == body + zeros(k as nat),
        decreases 6 - k,
    {
        code.push('0');
        k = k + 1;
        assert(code@ =~= body + zeros(k as nat));
    }
    assert(s@.subrange(1, s@.len() as int) =~= s@.skip(1));
    let r = string_of_range(&code, 0, 7);
    assert(code@.subrange(0, 7) =~= code@.take(7));
    r
}

// ---------------------------------------------------------------------------
// LK82
// ---------------------------------------------------------------------------

/// The LK82 normalization: tonemarks, silenced letters and signs dropped.
pub open spec fn lk82_normalize(s: Seq<char>) -> Seq<char> {
    rewrite(lk82_sign_rule(), rewrite(lk82_karant_rule(), rewrite(tonemark_rule(), s)))
}

/// The vowels ึ ื ุ ู.
pub open spec fn ue_vowel(c: char) -> bool {
    c == '\u{0e36}' || c == '\u{0e37}' || c == '\u{0e38}' || c == '\u{0e39}'
}

/// The parts of the LK82 code contributed by the characters of `t` from `i`
/// on (a part is one character, or an empty separator `None`); `start` is
/// where this scan began and `iv` the position of the last vowel seen.
pub open spec fn lk82_parts(t: Seq<char>, i: int, start: int, iv: Option<int>) -> Seq<
    Option<char>,
>
    decreases t.len() - i,
{
    if i < 0 || i >= t.len() {
        Seq::empty()
    } else {
        let c = t[i];
        if c == '\u{0e30}' || c == '\u{0e31}' || c == '\u{0e34}' || c == '\u{0e35}' {
            seq![None] + lk82_parts(t, i + 1, start, Some(i))
        } else if c == '\u{0e32}' || c == '\u{0e36}' || c == '\u{0e37}' || c == '\u{0e39}' || c
            == '\u{0e45}' {
            seq![Some(lk82_rest(c))] + lk82_parts(t, i + 1, start, Some(i))
        } else if c == '\u{0e38}' {
            (if i == start || (t[i - 1] != 'ต' && t[i - 1] != 'ธ') {
                seq![Some(lk82_rest(c))]
            } else {
                seq![None]
            }) + lk82_parts(t, i + 1, start, Some(i))
        } else if c == 'ห' || c == 'อ' {
            (if i + 1 < t.len() && ue_vowel(t[i + 1]) {
                seq![Some(lk82_rest(c))]
            } else {
                Seq::empty()
            }) + lk82_parts(t, i + 1, start, iv)
        } else if c == 'ย' || c == 'ร' || c == '\u{0e24}' || c == '\u{0e26}' || c == 'ว' {
            (if iv == Some(i - 1) || (i + 1 < t.len() && ue_vowel(t[i + 1])) {
                seq![Some(lk82_rest(c))]
            } else {
                Seq::empty()
            }) + lk82_parts(t, i + 1, start, iv)
        } else {
            seq![Some(lk82_rest(c))] + lk82_parts(t, i + 1, start, iv)
        }
    }
}

/// All parts of the LK82 code of the normalized text `t`.
pub open spec fn lk82_all_parts(t: Seq<char>) -> Seq<Option<char>> {
    if consonant_range(t[0]) {
        seq![Some(lk82_first(t[0]))] + lk82_parts(t, 1, 1, None)
    } else {
        (if t.len() > 1 {
            seq![Some(lk82_first(t[1]))]
        } else {
            Seq::empty()
        }) + seq![Some(lk82_rest(t[0]))] + lk82_parts(t, 2, 2, None)
    }
}

/// `p` without repeats of a part directly after itself.
pub open spec fn dedup(p: Seq<Option<char>>) -> Seq<Option<char>>
    decreases p.len(),
{
    if p.len() == 0 {
        p
    } else {
        let d = dedup(p.drop_last());
        if d.len() > 0 && d.last() == p.last() {
            d
        } else {
            d.push(p.last())
        }
    }
}

/// The characters of the parts, in order.
pub open spec fn joined(p: Seq<Option<char>>) -> Seq<char>
    decreases p.len(),
{
    if p.len() == 0 {
        Seq::empty()
    } else {
        joined(p.drop_last()) + match p.last() {
            Some(c) => seq![c],
            None => Seq::empty(),
        }
    }
}

/// The LK82 code of `s`: the joined parts without direct repeats, padded
/// with zeros and cut to five characters; empty where nothing is left after
/// normalization.
pub open spec fn lk82_code(s: Seq<char>) -> Seq<char> {
    let t = lk82_normalize(s);
    if t.len() == 0 {
        Seq::empty()
    } else {
        (joined(dedup(lk82_all_parts(t))) + zeros(4)).take(5)
    }
}

/// `o` with its position widened to an integer.
pub open spec fn opt_int(o: Option<usize>) -> Option<int> {
    match o {
        Some(x) => Some(x as int),
        None => None,
    }
}

proof fn lemma_dedup_first(p: Seq<Option<char>>)
    requires
        p.len() > 0,
    ensures
        dedup(p).len() > 0,
        dedup(p)[0] == p[0],
    decreases p.len(),
{
    let d = dedup(p.drop_last());
    if p.len() > 1 {
        lemma_dedup_first(p.drop_last());
        assert(d[0] == p[0]);
        assert(d.push(p.last())[0] == d[0]);
    } else {
        assert(p.drop_last().len() == 0);
        assert(d.len() == 0);
        assert(d.push(p.last())[0] == p.last());
    }
}

proof fn lemma_joined_nonempty(p: Seq<Option<char>>)
    requires
        p.len() > 0,
        p[0] is Some,
    ensures
        joined(p).len() > 0,
    decreases p.len(),
{
    if p.len() > 1 {
        lemma_joined_nonempty(p.drop_last());
    }
}

fn same_part(a: Option<char>, b: Option<char>) -> (r: bool)
    ensures
        r == (a == b),
{
    match (a, b) {
        (Some(x), Some(y)) => x == y,
        (None, None) => true,
        _ => false,
    }
}

/// Convert Thai text to LK82 soundex code (5 characters).
pub fn lk82(text: &str) -> (r: String)
    ensures
        r@ == lk82_code(text@),
        r@.len() == 0 || r@.len() == 5,
{
    let v = str_chars(text);
    let t = apply_rule(&make_tonemark_rule(), &v);
    let t = apply_rule(&make_lk82_karant_rule(), &t);
    let t = apply_rule(&make_lk82_sign_rule(), &t);
    let n = t.len();
    if n == 0 {
        return String::new();
    }
    let mut parts: Vec<Option<char>> = Vec::new();
    let start: usize;
    if '\u{0e01}' <= t[0] && t[0] <= '\u{0e2e}' {
        parts.push(Some(lk82_trans1(t[0])));
        start = 1;
    } else {
        if n > 1 {
            parts.push(Some(lk82_trans1(t[1])));
        }
        parts.push(Some(lk82_trans2(t[0])));
        start = 2;
    }
    let ghost all = lk82_all_parts(t@);
    assert(parts@ + lk82_parts(t@, start as int, start as int, None) =~= all);
    let mut iv: Option<usize> = None;
    let mut i: usize = if start <= n {
        start
    } else {
        n
    };
    assert(lk82_parts(t@, i as int, start as int, None) =~= lk82_parts(
        t@,
        start as int,
        start as int,
        None,
    ));
    while i < n
        invariant
            n == t@.len(),
            1 <= start,
            i <= n,
            start <= i || i == n,
            parts@ + lk82_parts(t@, i as int, start as int, opt_int(iv)) == all,
            iv matches Some(x) ==> x < i,
        decreases n - i,
    {
        let ghost before = parts@;
        let ghost iv0 = opt_int(iv);
        let c = t[i];
        let ue_next = i + 1 < n && (t[i + 1] == '\u{0e36}' || t[i + 1] == '\u{0e37}' || t[i + 1]
            == '\u{0e38}' || t[i + 1] == '\u{0e39}');
        if c == '\u{0e30}' || c == '\u{0e31}' || c == '\u{0e34}' || c == '\u{0e35}' {
            iv = Some(i);
            parts.push(None);
        } else if c == '\u{0e32}' || c == '\u{0e36}' || c == '\u{0e37}' || c == '\u{0e39}' || c
            == '\u{0e45}' {
            iv = Some(i);
            parts.push(Some(lk82_trans2(c)));
        } else if c == '\u{0e38}' {
            iv = Some(i);
            if i == start || (t[i - 1] != 'ต' && t[i - 1] != 'ธ') {
                parts.push(Some(lk82_trans2(c)));
            } else {
                parts.push(None);
            }
        } else if c == 'ห' || c == 'อ' {
            if ue_next {
                parts.push(Some(lk82_trans2(c)));
            }
        } else if c == 'ย' || c == 'ร' || c == '\u{0e24}' || c == '\u{0e26}' || c == 'ว' {
            let prev_is_vowel = match iv {
                Some(x) => x == i - 1,
                None => false,
            };
            if prev_is_vowel || ue_next {
                parts.push(Some(lk82_trans2(c)));
            }
        } else {
            parts.push(Some(lk82_trans2(c)));
        }
        assert(parts@ + lk82_parts(t@, i + 1, start as int, opt_int(iv)) =~= before
            + lk82_parts(t@, i as int, start as int, iv0));
        i = i + 1;
    }
    assert(parts@ =~= all);
    // Remove consecutive duplicates
    let mut deduped: Vec<Option<char>> = Vec::new();
    let mut k: usize = 0;
    while k < parts.len()
        invariant
            k <= parts@.len(),
            deduped@ == dedup(parts@.take(k as int)),
        decreases parts.len() - k,
    {
        let dl = deduped.len();
        if !(dl > 0 && same_part(deduped[dl - 1], parts[k])) {
            deduped.push(parts[k]);
        }
        assert(parts@.take(k + 1).drop_last() =~= parts@.take(k as int));
        k = k + 1;
    }
    assert(parts@.take(parts@.len() as int) =~= parts@);
    let mut code: Vec<char> = Vec::new();
    let mut m: usize = 0;
    while m < deduped.len()
        invariant
            m <= deduped@.len(),
            code@ == joined(deduped@.take(m as int)),
        decreases deduped.len() - m,
    {
        match deduped[m] {
            Some(c) => code.push(c),
            None => {},
        }
        assert(deduped@.take(m + 1).drop_last() =~= deduped@.take(m as int));
        m = m + 1;
    }
    assert(deduped@.take(deduped@.len() as int) =~= deduped@);
    let ghost body = code@;
    let mut z: usize = 0;
    while z < 4
        invariant
            z <= 4,
            code@ == body + zeros(z as nat),
        decreases 4 - z,
    {
        code.push('0');
        z = z + 1;
        assert(code@ =~= body + zeros(z as nat));
    }
    proof {
        lemma_dedup_first(all);
        lemma_joined_nonempty(dedup(all));
    }
    let r = string_of_range(&code, 0, 5);
    assert(code@.subrange(0, 5) =~= code@.take(5));
    r
}

/// The engine name `lk82`.
pub open spec fn lk82_name() -> Seq<char> {
    seq!['l', 'k', '8', '2']
}

/// The code of `text` by the named engine: LK82 for `lk82`, Udom83 otherwise.
pub open spec fn soundex_code(text: Seq<char>, engine: Seq<char>) -> Seq<char> {
    if engine == lk82_name() {
        lk82_code(text)
    } else {
        udom83_code(text)
    }
}

/// Convert Thai text to soundex code using the specified engine:
/// `"lk82"`, or Udom83 for any other name.
pub fn soundex(text: &str, engine: &str) -> (r: String)
    ensures
        r@ == soundex_code(text@, engine@),
{
    let e = str_chars(engine);
    let is_lk82 = e.len() == 4 && e[0] == 'l' && e[1] == 'k' && e[2] == '8' && e[3] == '2';
    assert(is_lk82 == (e@ =~= lk82_name()));
    if is_lk82 {
        lk82(text)
    } else {
        udom83(text)
    }
}

/// The Udom83 letter class of a first character, entry by entry; any other character is kept.
pub proof fn lemma_u83_first_table()
    ensures
        u83_first('ก') == 'ก',
        u83_first('ข') == 'ข',
        u83_first('ฃ') == 'ข',
        u83_first('ค') == 'ข',
        u83_first('ฅ') == 'ข',
        u83_first('ฆ') == 'ข',
        u83_first('ง') == 'ง',
        u83_first('จ') == 'จ',
        u83_first('ฉ') == 'ช',
        u83_first('ช') == 'ช',
        u83_first('ฌ') == 'ช',
        u83_first('ซ') == 'ส',
        u83_first('ศ') == 'ส',
        u83_first('ษ') == 'ส',
        u83_first('ส') == 'ส',
        u83_first('ฎ') == 'ด',
        u83_first('ด') == 'ด',
        u83_first('ฏ') == 'ต',
        u83_first('ต') == 'ต',
        u83_first('ฐ') == 'ท',
        u83_first('ฑ') == 'ท',
        u83_first('ฒ') == 'ท',
        u83_first('ถ') == 'ท',
        u83_first('ท') == 'ท',
        u83_first('ธ') == 'ท',
        u83_first('ณ') == 'น',
        u83_first('น') == 'น',
        u83_first('บ') == 'บ',
        u83_first('ป') == 'ป',
        u83_first('ผ') == 'พ',
        u83_first('พ') == 'พ',
        u83_first('ภ') == 'พ',
        u83_first('ฝ') == 'ฟ',
        u83_first('ฟ') == 'ฟ',
        u83_first('ม') == 'ม',
        u83_first('ญ') == 'ย',
        u83_first('ย') == 'ย',
        u83_first('ร') == 'ร',
        u83_first('ล') == 'ร',
        u83_first('ฬ') == 'ร',
        u83_first('ฤ') == 'ร',
        u83_first('ฦ') == 'ร',
        u83_first('ว') == 'ว',
        u83_first('อ') == 'อ',
        u83_first('ห') == 'ฮ',
        u83_first('ฮ') == 'ฮ',
        forall|c: char| !(c == 'ก' || c == 'ข' || c == 'ฃ' || c == 'ค' || c == 'ฅ' || c == 'ฆ' || c == 'ง' || c == 'จ' || c == 'ฉ' || c == 'ช' || c == 'ฌ' || c == 'ซ' || c == 'ศ' || c == 'ษ' || c == 'ส' || c == 'ฎ' || c == 'ด' || c == 'ฏ' || c == 'ต' || c == 'ฐ' || c == 'ฑ' || c == 'ฒ' || c == 'ถ' || c == 'ท' || c == 'ธ' || c == 'ณ' || c == 'น' || c == 'บ' || c == 'ป' || c == 'ผ' || c == 'พ' || c == 'ภ' || c == 'ฝ' || c == 'ฟ' || c == 'ม' || c == 'ญ' || c == 'ย' || c == 'ร' || c == 'ล' || c == 'ฬ' || c == 'ฤ' || c == 'ฦ' || c == 'ว' || c == 'อ' || c == 'ห' || c == 'ฮ') ==> #[trigger] u83_first(c) == c,
{
}

/// The Udom83 digit of a later character, entry by entry; any other character is kept.
pub proof fn lemma_u83_rest_table()
    ensures
        u83_rest('ม') == '0',
        u83_rest('ว') == '0',
        u83_rest('ำ') == '0',
        u83_rest('ก') == '1',
        u83_rest('ข') == '1',
        u83_rest('ฃ') == '1',
        u83_rest('ค') == '1',
        u83_rest('ฅ') == '1',
        u83_rest('ฆ') == '1',
        u83_rest('ง') == '2',
        u83_rest('ย') == '2',
        u83_rest('ญ') == '2',
        u83_rest('ณ') == '3',
        u83_rest('น') == '3',
        u83_rest('ฎ') == '4',
        u83_rest('ฏ') == '4',
        u83_rest('ด') == '4',
        u83_rest('ต') == '4',
        u83_rest('ศ') == '4',
        u83_rest('ษ') == '4',
        u83_rest('ส') == '4',
        u83_rest('บ') == '5',
        u83_rest('ป') == '5',
        u83_rest('พ') == '5',
        u83_rest('ภ') == '5',
        u83_rest('ผ') == '5',
        u83_rest('ฝ') == '5',
        u83_rest('ฟ') == '5',
        u83_rest('ห') == '6',
        u83_rest('อ') == '6',
        u83_rest('ฮ') == '6',
        u83_rest('จ') == '7',
        u83_rest('ฉ') == '7',
        u83_rest('ช') == '7',
        u83_rest('ซ') == '7',
        u83_rest('ฌ') == '7',
        u83_rest('ฐ') == '8',
        u83_rest('ฑ') == '8',
        u83_rest('ฒ') == '8',
        u83_rest('ถ') == '8',
        u83_rest('ท') == '8',
        u83_rest('ธ') == '8',
        u83_rest('ร') == '9',
        u83_rest('ฤ') == '9',
        u83_rest('ล') == '9',
        u83_rest('ฦ') == '9',
        forall|c: char| !(c == 'ม' || c == 'ว' || c == 'ำ' || c == 'ก' || c == 'ข' || c == 'ฃ' || c == 'ค' || c == 'ฅ' || c == 'ฆ' || c == 'ง' || c == 'ย' || c == 'ญ' || c == 'ณ' || c == 'น' || c == 'ฎ' || c == 'ฏ' || c == 'ด' || c == 'ต' || c == 'ศ' || c == 'ษ' || c == 'ส' || c == 'บ' || c == 'ป' || c == 'พ' || c == 'ภ' || c == 'ผ' || c == 'ฝ' || c == 'ฟ' || c == 'ห' || c == 'อ' || c == 'ฮ' || c == 'จ' || c == 'ฉ' || c == 'ช' || c == 'ซ' || c == 'ฌ' || c == 'ฐ' || c == 'ฑ' || c == 'ฒ' || c == 'ถ' || c == 'ท' || c == 'ธ' || c == 'ร' || c == 'ฤ' || c == 'ล' || c == 'ฦ') ==> #[trigger] u83_rest(c) == c,
{
}

/// The LK82 letter class of a first character, entry by entry; any other character is kept.
pub proof fn lemma_lk82_first_table()
    ensures
        lk82_first('ก') == 'ก',
        lk82_first('ข') == 'ก',
        lk82_first('ฃ') == 'ก',
        lk82_first('ค') == 'ก',
        lk82_first('ฅ') == 'ก',
        lk82_first('ฆ') == 'ก',
        lk82_first('ง') == 'ง',
        lk82_first('จ') == 'จ',
        lk82_first('ฉ') == 'ช',
        lk82_first('ช') == 'ช',
        lk82_first('ฌ') == 'ช',
        lk82_first('ซ') == 'ซ',
        lk82_first('ศ') == 'ซ',
        lk82_first('ษ') == 'ซ',
        lk82_first('ส') == 'ซ',
        lk82_first('ญ') == 'ย',
        lk82_first('ย') == 'ย',
        lk82_first('ฎ') == 'ด',
        lk82_first('ด') == 'ด',
        lk82_first('ฏ') == 'ต',
        lk82_first('ต') == 'ต',
        lk82_first('ณ') == 'น',
        lk82_first('น') == 'น',
        lk82_first('ฐ') == 'ท',
        lk82_first('ฑ') == 'ท',
        lk82_first('ฒ') == 'ท',
        lk82_first('ถ') == 'ท',
        lk82_first('ท') == 'ท',
        lk82_first('ธ') == 'ท',
        lk82_first('บ') == 'บ',
        lk82_first('ป') == 'บ',
        lk82_first('ผ') == 'พ',
        lk82_first('พ') == 'พ',
        lk82_first('ภ') == 'พ',
        lk82_first('ฝ') == 'ฟ',
        lk82_first('ฟ') == 'ฟ',
        lk82_first('ม') == 'ม',
        lk82_first('ร') == 'ร',
        lk82_first('ล') == 'ร',
        lk82_first('ฬ') == 'ร',
        lk82_first('ฤ') == 'ร',
        lk82_first('ฦ') == 'ร',
        lk82_first('ว') == 'ว',
        lk82_first('ห') == 'ห',
        lk82_first('ฮ') == 'ห',
        lk82_first('อ') == 'อ',
        forall|c: char| !(c == 'ก' || c == 'ข' || c == 'ฃ' || c == 'ค' || c == 'ฅ' || c == 'ฆ' || c == 'ง' || c == 'จ' || c == 'ฉ' || c == 'ช' || c == 'ฌ' || c == 'ซ' || c == 'ศ' || c == 'ษ' || c == 'ส' || c == 'ญ' || c == 'ย' || c == 'ฎ' || c == 'ด' || c == 'ฏ' || c == 'ต' || c == 'ณ' || c == 'น' || c == 'ฐ' || c == 'ฑ' || c == 'ฒ' || c == 'ถ' || c == 'ท' || c == 'ธ' || c == 'บ' || c == 'ป' || c == 'ผ' || c == 'พ' || c == 'ภ' || c == 'ฝ' || c == 'ฟ' || c == 'ม' || c == 'ร' || c == 'ล' || c == 'ฬ' || c == 'ฤ' || c == 'ฦ' || c == 'ว' || c == 'ห' || c == 'ฮ' || c == 'อ') ==> #[trigger] lk82_first(c) == c,
{
}

/// The LK82 code of a later character, entry by entry; any other character is kept.
pub proof fn lemma_lk82_rest_table()
    ensures
        lk82_rest('ก') == '1',
        lk82_rest('ข') == '1',
        lk82_rest('ฃ') == '1',
        lk82_rest('ค') == '1',
        lk82_rest('ฅ') == '1',
        lk82_rest('ฆ') == '1',
        lk82_rest('ง') == '2',
        lk82_rest('จ') == '3',
        lk82_rest('ฉ') == '3',
        lk82_rest('ช') == '3',
        lk82_rest('ซ') == '3',
        lk82_rest('ฌ') == '3',
        lk82_rest('ฎ') == '3',
        lk82_rest('ฏ') == '3',
        lk82_rest('ฐ') == '3',
        lk82_rest('ฑ') == '3',
        lk82_rest('ฒ') == '3',
        lk82_rest('ด') == '3',
        lk82_rest('ต') == '3',
        lk82_rest('ถ') == '3',
        lk82_rest('ท') == '3',
        lk82_rest('ธ') == '3',
        lk82_rest('ศ') == '3',
        lk82_rest('ษ') == '3',
        lk82_rest('ส') == '3',
        lk82_rest('ญ') == '4',
        lk82_rest('ณ') == '4',
        lk82_rest('น') == '4',
        lk82_rest('ร') == '4',
        lk82_rest('ล') == '4',
        lk82_rest('ฬ') == '4',
        lk82_rest('ฤ') == '4',
        lk82_rest('ฦ') == '4',
        lk82_rest('บ') == '5',
        lk82_rest('ป') == '5',
        lk82_rest('พ') == '5',
        lk82_rest('ฟ') == '5',
        lk82_rest('ภ') == '5',
        lk82_rest('ผ') == '5',
        lk82_rest('ฝ') == '5',
        lk82_rest('ม') == '6',
        lk82_rest('ำ') == '6',
        lk82_rest('ย') == '7',
        lk82_rest('ว') == '7',
        lk82_rest('ไ') == '7',
        lk82_rest('ใ') == '7',
        lk82_rest('ห') == '8',
        lk82_rest('ฮ') == '8',
        lk82_rest('า') == '9',
        lk82_rest('ๅ') == '9',
        lk82_rest('ึ') == 'A',
        lk82_rest('ื') == 'A',
        lk82_rest('เ') == 'B',
        lk82_rest('แ') == 'B',
        lk82_rest('โ') == 'C',
        lk82_rest('ุ') == 'D',
        lk82_rest('ู') == 'D',
        lk82_rest('อ') == 'E',
        forall|c: char| !(c == 'ก' || c == 'ข' || c == 'ฃ' || c == 'ค' || c == 'ฅ' || c == 'ฆ' || c == 'ง' || c == 'จ' || c == 'ฉ' || c == 'ช' || c == 'ซ' || c == 'ฌ' || c == 'ฎ' || c == 'ฏ' || c == 'ฐ' || c == 'ฑ' || c == 'ฒ' || c == 'ด' || c == 'ต' || c == 'ถ' || c == 'ท' || c == 'ธ' || c == 'ศ' || c == 'ษ' || c == 'ส' || c == 'ญ' || c == 'ณ' || c == 'น' || c == 'ร' || c == 'ล' || c == 'ฬ' || c == 'ฤ' || c == 'ฦ' || c == 'บ' || c == 'ป' || c == 'พ' || c == 'ฟ' || c == 'ภ' || c == 'ผ' || c == 'ฝ' || c == 'ม' || c == 'ำ' || c == 'ย' || c == 'ว' || c == 'ไ' || c == 'ใ' || c == 'ห' || c == 'ฮ' || c == 'า' || c == 'ๅ' || c == 'ึ' || c == 'ื' || c == 'เ' || c == 'แ' || c == 'โ' || c == 'ุ' || c == 'ู' || c == 'อ') ==> #[trigger] lk82_rest(c) == c,
{
}

} // verus!
