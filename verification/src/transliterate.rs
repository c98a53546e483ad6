//! Romanization of Thai text in the Royal Thai General System of
//! Transcription (RTGS), by rules: the text is cut into Thai runs, each run
//! into character clusters, and each cluster is read through normalization,
//! vowel patterns and a consonant state machine.
use vstd::prelude::*;
use crate::characters::{consonant_range, is_thai_char, is_thai_consonant, thai_block, thai_consonant};
use crate::rewrite::{apply_rule, rewrite};
use crate::rules::{make_normalize_rule, normalize_rule, replace_vowels, vowels_replaced};
use crate::text::{extend, extend_range, str_chars, string_of};
use crate::tokenize::{strings_view, tcc_tokens, tcc_units};

verus! {

// ---------------------------------------------------------------------------
// Consonant readings
// ---------------------------------------------------------------------------

/// The RTGS reading of a consonant letter: as an initial and as a final.
/// ฦ has none.
pub open spec fn rtgs_consonant(c: char) -> Option<(Seq<char>, Seq<char>)> {
    match c {
        'ก' => Some((seq!['k'], seq!['k'])),
        'ข' => Some((seq!['k', 'h'], seq!['k'])),
        'ฃ' => Some((seq!['k', 'h'], seq!['k'])),
        'ค' => Some((seq!['k', 'h'], seq!['k'])),
        'ฅ' => Some((seq!['k', 'h'], seq!['k'])),
        'ฆ' => Some((seq!['k', 'h'], seq!['k'])),
        'ง' => Some((seq!['n', 'g'], seq!['n', 'g'])),
        'จ' => Some((seq!['c', 'h'], seq!['t'])),
        'ฉ' => Some((seq!['c', 'h'], seq!['t'])),
        'ช' => Some((seq!['c', 'h'], seq!['t'])),
        'ซ' => Some((seq!['s'], seq!['t'])),
        'ฌ' => Some((seq!['c', 'h'], seq!['t'])),
        'ญ' => Some((seq!['y'], seq!['n'])),
        'ฎ' => Some((seq!['d'], seq!['t'])),
        'ฏ' => Some((seq!['t'], seq!['t'])),
        'ฐ' => Some((seq!['t', 'h'], seq!['t'])),
        'ฑ' => Some((seq!['t', 'h'], seq!['t'])),
        'ฒ' => Some((seq!['t', 'h'], seq!['t'])),
        'ณ' => Some((seq!['n'], seq!['n'])),
        'ด' => Some((seq!['d'], seq!['t'])),
        'ต' => Some((seq!['t'], seq!['t'])),
        'ถ' => Some((seq!['t', 'h'], seq!['t'])),
        'ท' => Some((seq!['t', 'h'], seq!['t'])),
        'ธ' => Some((seq!['t', 'h'], seq!['t'])),
        'น' => Some((seq!['n'], seq!['n'])),
        'บ' => Some((seq!['b'], seq!['p'])),
        'ป' => Some((seq!['p'], seq!['p'])),
        'ผ' => Some((seq!['p', 'h'], seq!['p'])),
        'ฝ' => Some((seq!['f'], seq!['p'])),
        'พ' => Some((seq!['p', 'h'], seq!['p'])),
        'ฟ' => Some((seq!['f'], seq!['p'])),
        'ภ' => Some((seq!['p', 'h'], seq!['p'])),
        'ม' => Some((seq!['m'], seq!['m'])),
        'ย' => Some((seq!['y'], seq![])),
        'ร' => Some((seq!['r'], seq!['n'])),
        'ฤ' => Some((seq!['r', 'u', 'e'], seq![])),
        'ล' => Some((seq!['l'], seq!['n'])),
        'ว' => Some((seq!['w'], seq![])),
        'ศ' => Some((seq!['s'], seq!['t'])),
        'ษ' => Some((seq!['s'], seq!['t'])),
        'ส' => Some((seq!['s'], seq!['t'])),
        'ห' => Some((seq!['h'], seq![])),
        'ฬ' => Some((seq!['l'], seq!['n'])),
        'อ' => Some((seq![], seq![])),
        'ฮ' => Some((seq!['h'], seq![])),
        _ => None,
    }
}

fn rtgs_consonant_table(c: char) -> (r: Option<(Vec<char>, Vec<char>)>)
    ensures
        match r {
            Some(p) => rtgs_consonant(c) == Some((p.0@, p.1@)),
            None => rtgs_consonant(c) is None,
        },
{
    match c {
        'ก' => {
            let p = (vec!['k'], vec!['k']);
            assert(p.0@ =~= seq!['k'] && p.1@ =~= seq!['k']);
            Some(p)
        },
        'ข' => {
            let p = (vec!['k', 'h'], vec!['k']);
            assert(p.0@ =~= seq!['k', 'h'] && p.1@ =~= seq!['k']);
            Some(p)
        },
        'ฃ' => {
            let p = (vec!['k', 'h'], vec!['k']);
            assert(p.0@ =~= seq!['k', 'h'] && p.1@ =~= seq!['k']);
            Some(p)
        },
        'ค' => {
            let p = (vec!['k', 'h'], vec!['k']);
            assert(p.0@ =~= seq!['k', 'h'] && p.1@ =~= seq!['k']);
            Some(p)
        },
        'ฅ' => {
            let p = (vec!['k', 'h'], vec!['k']);
            assert(p.0@ =~= seq!['k', 'h'] && p.1@ =~= seq!['k']);
            Some(p)
        },
        'ฆ' => {
            let p = (vec!['k', 'h'], vec!['k']);
            assert(p.0@ =~= seq!['k', 'h'] && p.1@ =~= seq!['k']);
            Some(p)
        },
        'ง' => {
            let p = (vec!['n', 'g'], vec!['n', 'g']);
            assert(p.0@ =~= seq!['n', 'g'] && p.1@ =~= seq!['n', 'g']);
            Some(p)
        },
        'จ' => {
            let p = (vec!['c', 'h'], vec!['t']);
            assert(p.0@ =~= seq!['c', 'h'] && p.1@ =~= seq!['t']);
            Some(p)
        },
        'ฉ' => {
            let p = (vec!['c', 'h'], vec!['t']);
            assert(p.0@ =~= seq!['c', 'h'] && p.1@ =~= seq!['t']);
            Some(p)
        },
        'ช' => {
            let p = (vec!['c', 'h'], vec!['t']);
            assert(p.0@ =~= seq!['c', 'h'] && p.1@ =~= seq!['t']);
            Some(p)
        },
        'ซ' => {
            let p = (vec!['s'], vec!['t']);
            assert(p.0@ =~= seq!['s'] && p.1@ =~= seq!['t']);
            Some(p)
        },
        'ฌ' => {
            let p = (vec!['c', 'h'], vec!['t']);
            assert(p.0@ =~= seq!['c', 'h'] && p.1@ =~= seq!['t']);
            Some(p)
        },
        'ญ' => {
            let p = (vec!['y'], vec!['n']);
            assert(p.0@ =~= seq!['y'] && p.1@ =~= seq!['n']);
            Some(p)
        },
        'ฎ' => {
            let p = (vec!['d'], vec!['t']);
            assert(p.0@ =~= seq!['d'] && p.1@ =~= seq!['t']);
            Some(p)
        },
        'ฏ' => {
            let p = (vec!['t'], vec!['t']);
            assert(p.0@ =~= seq!['t'] && p.1@ =~= seq!['t']);
            Some(p)
        },
        'ฐ' => {
            let p = (vec!['t', 'h'], vec!['t']);
            assert(p.0@ =~= seq!['t', 'h'] && p.1@ =~= seq!['t']);
            Some(p)
        },
        'ฑ' => {
            let p = (vec!['t', 'h'], vec!['t']);
            assert(p.0@ =~= seq!['t', 'h'] && p.1@ =~= seq!['t']);
            Some(p)
        },
        'ฒ' => {
            let p = (vec!['t', 'h'], vec!['t']);
            assert(p.0@ =~= seq!['t', 'h'] && p.1@ =~= seq!['t']);
            Some(p)
        },
        'ณ' => {
            let p = (vec!['n'], vec!['n']);
            assert(p.0@ =~= seq!['n'] && p.1@ =~= seq!['n']);
            Some(p)
        },
        'ด' => {
            let p = (vec!['d'], vec!['t']);
            assert(p.0@ =~= seq!['d'] && p.1@ =~= seq!['t']);
            Some(p)
        },
        'ต' => {
            let p = (vec!['t'], vec!['t']);
            assert(p.0@ =~= seq!['t'] && p.1@ =~= seq!['t']);
            Some(p)
        },
        'ถ' => {
            let p = (vec!['t', 'h'], vec!['t']);
            assert(p.0@ =~= seq!['t', 'h'] && p.1@ =~= seq!['t']);
            Some(p)
        },
        'ท' => {
            let p = (vec!['t', 'h'], vec!['t']);
            assert(p.0@ =~= seq!['t', 'h'] && p.1@ =~= seq!['t']);
            Some(p)
        },
        'ธ' => {
            let p = (vec!['t', 'h'], vec!['t']);
            assert(p.0@ =~= seq!['t', 'h'] && p.1@ =~= seq!['t']);
            Some(p)
        },
        'น' => {
            let p = (vec!['n'], vec!['n']);
            assert(p.0@ =~= seq!['n'] && p.1@ =~= seq!['n']);
            Some(p)
        },
        'บ' => {
            let p = (vec!['b'], vec!['p']);
            assert(p.0@ =~= seq!['b'] && p.1@ =~= seq!['p']);
            Some(p)
        },
        'ป' => {
            let p = (vec!['p'], vec!['p']);
            assert(p.0@ =~= seq!['p'] && p.1@ =~= seq!['p']);
            Some(p)
        },
        'ผ' => {
            let p = (vec!['p', 'h'], vec!['p']);
            assert(p.0@ =~= seq!['p', 'h'] && p.1@ =~= seq!['p']);
            Some(p)
        },
        'ฝ' => {
            let p = (vec!['f'], vec!['p']);
            assert(p.0@ =~= seq!['f'] && p.1@ =~= seq!['p']);
            Some(p)
        },
        'พ' => {
            let p = (vec!['p', 'h'], vec!['p']);
            assert(p.0@ =~= seq!['p', 'h'] && p.1@ =~= seq!['p']);
            Some(p)
        },
        'ฟ' => {
            let p = (vec!['f'], vec!['p']);
            assert(p.0@ =~= seq!['f'] && p.1@ =~= seq!['p']);
            Some(p)
        },
        'ภ' => {
            let p = (vec!['p', 'h'], vec!['p']);
            assert(p.0@ =~= seq!['p', 'h'] && p.1@ =~= seq!['p']);
            Some(p)
        },
        'ม' => {
            let p = (vec!['m'], vec!['m']);
            assert(p.0@ =~= seq!['m'] && p.1@ =~= seq!['m']);
            Some(p)
        },
        'ย' => {
            let p = (vec!['y'], vec![]);
            assert(p.0@ =~= seq!['y'] && p.1@ =~= seq![]);
            Some(p)
        },
        'ร' => {
            let p = (vec!['r'], vec!['n']);
            assert(p.0@ =~= seq!['r'] && p.1@ =~= seq!['n']);
            Some(p)
        },
        'ฤ' => {
            let p = (vec!['r', 'u', 'e'], vec![]);
            assert(p.0@ =~= seq!['r', 'u', 'e'] && p.1@ =~= seq![]);
            Some(p)
        },
        'ล' => {
            let p = (vec!['l'], vec!['n']);
            assert(p.0@ =~= seq!['l'] && p.1@ =~= seq!['n']);
            Some(p)
        },
        'ว' => {
            let p = (vec!['w'], vec![]);
            assert(p.0@ =~= seq!['w'] && p.1@ =~= seq![]);
            Some(p)
        },
        'ศ' => {
            let p = (vec!['s'], vec!['t']);
            assert(p.0@ =~= seq!['s'] && p.1@ =~= seq!['t']);
            Some(p)
        },
        'ษ' => {
            let p = (vec!['s'], vec!['t']);
            assert(p.0@ =~= seq!['s'] && p.1@ =~= seq!['t']);
            Some(p)
        },
        'ส' => {
            let p = (vec!['s'], vec!['t']);
            assert(p.0@ =~= seq!['s'] && p.1@ =~= seq!['t']);
            Some(p)
        },
        'ห' => {
            let p = (vec!['h'], vec![]);
            assert(p.0@ =~= seq!['h'] && p.1@ =~= seq![]);
            Some(p)
        },
        'ฬ' => {
            let p = (vec!['l'], vec!['n']);
            assert(p.0@ =~= seq!['l'] && p.1@ =~= seq!['n']);
            Some(p)
        },
        'อ' => {
            let p = (vec![], vec![]);
            assert(p.0@ =~= seq![] && p.1@ =~= seq![]);
            Some(p)
        },
        'ฮ' => {
            let p = (vec!['h'], vec![]);
            assert(p.0@ =~= seq!['h'] && p.1@ =~= seq![]);
            Some(p)
        },
        _ => None,
    }
}

/// The reading of `c` as an initial, where it has one.
pub open spec fn initial_piece(c: char) -> Option<Seq<char>> {
    match rtgs_consonant(c) {
        Some(p) => Some(p.0),
        None => None,
    }
}

/// The reading of `c` as an initial, where it has a non-empty one.
pub open spec fn nonempty_initial_piece(c: char) -> Option<Seq<char>> {
    match rtgs_consonant(c) {
        Some(p) => if p.0.len() > 0 {
            Some(p.0)
        } else {
            None
        },
        None => None,
    }
}

/// The reading of `c` as a final, where it has one.
pub open spec fn final_piece(c: char) -> Option<Seq<char>> {
    match rtgs_consonant(c) {
        Some(p) => Some(p.1),
        None => None,
    }
}

// ---------------------------------------------------------------------------
// Normalization and consonant extraction
// ---------------------------------------------------------------------------

/// The consonant letters (range ก..ฮ, ฤ and ฦ included) of `w`, in order.
pub open spec fn consonant_letters(w: Seq<char>) -> Seq<char>
    decreases w.len(),
{
    if w.len() == 0 {
        Seq::empty()
    } else if consonant_range(w.last()) {
        consonant_letters(w.drop_last()).push(w.last())
    } else {
        consonant_letters(w.drop_last())
    }
}

/// How many characters of `w` are consonants of `THAI_CONSONANTS`.
pub open spec fn consonant_count(w: Seq<char>) -> nat
    decreases w.len(),
{
    if w.len() == 0 {
        0
    } else if thai_consonant(w.last()) {
        consonant_count(w.drop_last()) + 1
    } else {
        consonant_count(w.drop_last())
    }
}

/// Drops silent letters and marks: a letter under thanthakhat (with the
/// clusters จน์ มณ์ ณฑ์ ทร์ ตร์), ฯ, ๆ, tonemarks and the other signs
/// U+0E48..U+0E4F, ๚ and ๛.
fn normalize(word: &Vec<char>) -> (r: Vec<char>)
    ensures
        r@ == rewrite(normalize_rule(), word@),
{
    apply_rule(&make_normalize_rule(), word)
}

fn consonants_of(w: &Vec<char>) -> (r: Vec<char>)
    ensures
        r@ == consonant_letters(w@),
{
    let mut r: Vec<char> = Vec::new();
    let mut i: usize = 0;
    while i < w.len()
        invariant
            i <= w@.len(),
            r@ == consonant_letters(w@.take(i as int)),
        decreases w.len() - i,
    {
        let c = w[i];
        proof {
            assert(w@.take(i + 1).drop_last() =~= w@.take(i as int));
            assert(w@.take(i + 1).last() == c);
        }
        if '\u{0e01}' <= c && c <= '\u{0e2e}' {
            r.push(c);
        }
        i = i + 1;
    }
    assert(w@.take(w@.len() as int) =~= w@);
    r
}

proof fn lemma_consonant_count_fewer(w: Seq<char>)
    ensures
        consonant_count(w) <= consonant_letters(w).len(),
    decreases w.len(),
{
    if w.len() > 0 {
        lemma_consonant_count_fewer(w.drop_last());
    }
}

proof fn lemma_consonant_count_prefix(w: Seq<char>, i: int)
    requires
        0 <= i <= w.len(),
    ensures
        consonant_count(w.take(i)) <= consonant_count(w),
    decreases w.len() - i,
{
    if i < w.len() {
        lemma_consonant_count_prefix(w, i + 1);
        assert(w.take(i + 1).drop_last() =~= w.take(i));
    } else {
        assert(w.take(i) =~= w);
    }
}

// ---------------------------------------------------------------------------
// The consonant state machine
// ---------------------------------------------------------------------------

/// The state of the consonant pass over a word.
#[verifier::ext_equal]
pub struct ReadState {
    /// What has been written so far.
    pub out: Seq<char>,
    /// Whether any piece (possibly empty) has been written.
    pub pushed: bool,
    /// The index of the next consonant letter to read.
    pub j: int,
    /// Whether a vowel has been seen since the last initial.
    pub vowel_seen: bool,
    /// Whether the next character is the second ร of รร.
    pub skip: bool,
}

pub open spec fn start_state() -> ReadState {
    ReadState { out: Seq::empty(), pushed: false, j: 0, vowel_seen: false, skip: false }
}

/// `st` with `p` written, where there is a piece.
pub open spec fn write_piece(st: ReadState, p: Option<Seq<char>>) -> ReadState {
    match p {
        Some(x) => ReadState {
            out: st.out + x,
            pushed: true,
            j: st.j,
            vowel_seen: st.vowel_seen,
            skip: st.skip,
        },
        None => st,
    }
}

/// `st` moved on to the next consonant letter.
pub open spec fn next_letter(st: ReadState) -> ReadState {
    ReadState { out: st.out, pushed: st.pushed, j: st.j + 1, vowel_seen: st.vowel_seen, skip: st.skip }
}

pub open spec fn with_vowel_seen(st: ReadState, b: bool) -> ReadState {
    ReadState { out: st.out, pushed: st.pushed, j: st.j, vowel_seen: b, skip: st.skip }
}

pub open spec fn with_skip(st: ReadState, b: bool) -> ReadState {
    ReadState { out: st.out, pushed: st.pushed, j: st.j, vowel_seen: st.vowel_seen, skip: b }
}

/// Whether `c` is one of the romanized vowels a e i o u.
pub open spec fn latin_vowel(c: char) -> bool {
    c == 'a' || c == 'e' || c == 'i' || c == 'o' || c == 'u'
}

/// Whether something other than a romanized vowel has been written.
pub open spec fn has_initial(out: Seq<char>) -> bool {
    exists|k: int| 0 <= k < out.len() && !latin_vowel(#[trigger] out[k])
}

/// One step of the consonant pass, at position `i` of `w`, where `cs` are
/// the consonant letters of the word.
pub open spec fn read_step(w: Seq<char>, cs: Seq<char>, i: int, st: ReadState) -> ReadState {
    let n = w.len();
    let ch = w[i];
    if st.skip {
        next_letter(with_skip(st, false))
    } else if !thai_consonant(ch) {
        write_piece(with_vowel_seen(st, true), Some(seq![ch]))
    } else if !st.pushed && ch == 'ห' && cs.len() != 1 {
        next_letter(st)
    } else if i + 1 < n && ch == 'ร' && w[i + 1] == 'ร' {
        let p = if i + 2 == n {
            seq!['a', 'n']
        } else {
            seq!['a']
        };
        next_letter(write_piece(with_vowel_seen(with_skip(st, true), true), Some(p)))
    } else if !st.vowel_seen {
        let c = cs[st.j];
        if !has_initial(st.out) {
            next_letter(write_piece(st, nonempty_initial_piece(c)))
        } else if (ch == 'ร' || ch == 'ล' || ch == 'ว') && i + 1 < n {
            next_letter(write_piece(st, initial_piece(c)))
        } else if i + 1 < n {
            next_letter(write_piece(write_piece(st, Some(seq!['a'])), nonempty_initial_piece(c)))
        } else {
            next_letter(
                write_piece(write_piece(with_vowel_seen(st, true), Some(seq!['o'])), final_piece(c)),
            )
        }
    } else {
        let c = cs[st.j];
        if i + 1 < n && !thai_consonant(w[i + 1]) {
            next_letter(with_vowel_seen(write_piece(st, initial_piece(c)), false))
        } else {
            next_letter(write_piece(st, final_piece(c)))
        }
    }
}

/// The consonant pass from position `i` on, in state `st`.
pub open spec fn read_from(w: Seq<char>, cs: Seq<char>, i: int, st: ReadState) -> ReadState
    decreases w.len() - i,
{
    if i < 0 || i >= w.len() {
        st
    } else {
        read_from(w, cs, i + 1, read_step(w, cs, i, st))
    }
}

/// The word `w` with its consonants read, `cs` being its consonant letters.
pub open spec fn consonants_replaced(w: Seq<char>, cs: Seq<char>) -> Seq<char> {
    read_from(w, cs, 0, start_state()).out
}

fn has_initial_exec(out: &Vec<char>) -> (r: bool)
    ensures
        r == has_initial(out@),
{
    let mut k: usize = 0;
    while k < out.len()
        invariant
            k <= out@.len(),
            forall|m: int| 0 <= m < k ==> latin_vowel(#[trigger] out@[m]),
        decreases out.len() - k,
    {
        let c = out[k];
        if !(c == 'a' || c == 'e' || c == 'i' || c == 'o' || c == 'u') {
            return true;
        }
        k = k + 1;
    }
    false
}

fn write_initial(out: &mut Vec<char>, pushed: &mut bool, c: char, nonempty: bool)
    ensures
        ({
            let p = if nonempty {
                nonempty_initial_piece(c)
            } else {
                initial_piece(c)
            };
            match p {
                Some(x) => final(out)@ == old(out)@ + x && *final(pushed),
                None => final(out)@ == old(out)@ && *final(pushed) == *old(pushed),
            }
        }),
{
    match rtgs_consonant_table(c) {
        Some(p) => {
            if !nonempty || p.0.len() > 0 {
                extend(out, &p.0);
                *pushed = true;
            }
        },
        None => {},
    }
}

fn write_final(out: &mut Vec<char>, pushed: &mut bool, c: char)
    ensures
        match final_piece(c) {
            Some(x) => final(out)@ == old(out)@ + x && *final(pushed),
            None => final(out)@ == old(out)@ && *final(pushed) == *old(pushed),
        },
{
    match rtgs_consonant_table(c) {
        Some(p) => {
            extend(out, &p.1);
            *pushed = true;
        },
        None => {},
    }
}

/// Reads the consonants of `w`, the consonant letters `cs` standing for its
/// consonants in order.
fn replace_consonants(w: &Vec<char>, cs: &Vec<char>) -> (r: Vec<char>)
    requires
        consonant_count(w@) <= cs@.len(),
    ensures
        r@ == consonants_replaced(w@, cs@),
{
    let n = w.len();
    let m = cs.len();
    let mut out: Vec<char> = Vec::new();
    let mut pushed = false;
    let mut j: usize = 0;
    let mut vowel_seen = false;
    let mut skip = false;
    let mut i: usize = 0;
    while i < n
        invariant
            n == w@.len(),
            i <= n,
            j == consonant_count(w@.take(i as int)),
            consonant_count(w@) <= cs@.len(),
            m == cs@.len(),
            skip ==> i < n && w@[i as int] == 'ร',
            read_from(
                w@,
                cs@,
                i as int,
                ReadState { out: out@, pushed, j: j as int, vowel_seen, skip },
            ) == read_from(w@, cs@, 0, start_state()),
        decreases n - i,
    {
        let ghost st = ReadState { out: out@, pushed, j: j as int, vowel_seen, skip };
        proof {
            assert(w@.take(i + 1).drop_last() =~= w@.take(i as int));
            assert(w@.take(i + 1).last() == w@[i as int]);
            lemma_consonant_count_prefix(w@, i + 1);
            assert(consonant_count(w@.take(i + 1)) == consonant_count(w@.take(i as int)) + if thai_consonant(
                w@[i as int],
            ) {
                1nat
            } else {
                0nat
            });
        }
        if skip {
            skip = false;
            j = j + 1;
        } else {
            let ch = w[i];
            if !is_thai_consonant(ch) {
                vowel_seen = true;
                out.push(ch);
                pushed = true;
                assert(out@ =~= st.out + seq![ch]);
            } else if !pushed && ch == 'ห' && cs.len() != 1 {
                j = j + 1;
            } else if i + 1 < n && ch == 'ร' && w[i + 1] == 'ร' {
                skip = true;
                if i + 2 == n {
                    out.push('a');
                    out.push('n');
                    assert(out@ =~= st.out + seq!['a', 'n']);
                } else {
                    out.push('a');
                    assert(out@ =~= st.out + seq!['a']);
                }
                pushed = true;
                vowel_seen = true;
                j = j + 1;
            } else if !vowel_seen {
                let c = cs[j];
                if !has_initial_exec(&out) {
                    write_initial(&mut out, &mut pushed, c, true);
                } else if (ch == 'ร' || ch == 'ล' || ch == 'ว') && i + 1 < n {
                    write_initial(&mut out, &mut pushed, c, false);
                } else if i + 1 < n {
                    out.push('a');
                    pushed = true;
                    let ghost mid = out@;
                    assert(mid =~= st.out + seq!['a']);
                    write_initial(&mut out, &mut pushed, c, true);
                } else {
                    out.push('o');
                    pushed = true;
                    vowel_seen = true;
                    let ghost mid = out@;
                    assert(mid =~= st.out + seq!['o']);
                    write_final(&mut out, &mut pushed, c);
                }
                j = j + 1;
            } else {
                let c = cs[j];
                if i + 1 < n && !is_thai_consonant(w[i + 1]) {
                    write_initial(&mut out, &mut pushed, c, false);
                    vowel_seen = false;
                } else {
                    write_final(&mut out, &mut pushed, c);
                }
                j = j + 1;
            }
        }
        proof {
            let nst = ReadState { out: out@, pushed, j: j as int, vowel_seen, skip };
            assert(nst =~= read_step(w@, cs@, i as int, st));
        }
        i = i + 1;
    }
    out
}

// ---------------------------------------------------------------------------
// Words and text
// ---------------------------------------------------------------------------

/// The word after normalization and vowel patterns, with an `o` put between
/// the two letters of a word of two consonant letters.
pub open spec fn vowels_read(word: Seq<char>) -> Seq<char> {
    let v = vowels_replaced(rewrite(normalize_rule(), word));
    if v.len() == 2 && consonant_letters(v).len() == 2 {
        seq![v[0], 'o', v[1]]
    } else {
        v
    }
}

/// The romanization of one character cluster: ห alone reads as nothing.
#[verifier::opaque]
pub open spec fn romanized_word(word: Seq<char>) -> Seq<char> {
    if word == seq!['ห'] {
        Seq::empty()
    } else {
        let v = vowels_replaced(rewrite(normalize_rule(), word));
        consonants_replaced(vowels_read(word), consonant_letters(v))
    }
}

proof fn lemma_two_letters(v: Seq<char>)
    requires
        v.len() == 2,
        consonant_letters(v).len() == 2,
    ensures
        consonant_count(seq![v[0], 'o', v[1]]) <= 2,
{
    let w = seq![v[0], 'o', v[1]];
    assert(w.drop_last() =~= seq![v[0], 'o']);
    assert(seq![v[0], 'o'].drop_last() =~= seq![v[0]]);
    assert(seq![v[0]].drop_last() =~= Seq::<char>::empty());
    assert(consonant_count(Seq::<char>::empty()) == 0);
    assert(consonant_count(seq![v[0]]) <= 1);
    assert(consonant_count(seq![v[0], 'o']) <= 1);
}

fn romanize_word(word: &Vec<char>) -> (r: Vec<char>)
    ensures
        r@ == romanized_word(word@),
{
    reveal(romanized_word);
    if word.len() == 1 && word[0] == 'ห' {
        assert(word@ =~= seq!['ห']);
        return Vec::new();
    }
    proof {
        if word@ == seq!['ห'] {
            assert(word@.len() == 1 && word@[0] == 'ห');
        }
    }
    let normalized = normalize(word);
    let v = replace_vowels(&normalized);
    let cs = consonants_of(&v);
    let w = if v.len() == 2 && cs.len() == 2 {
        proof {
            lemma_two_letters(v@);
        }
        let w2 = vec![v[0], 'o', v[1]];
        assert(w2@ =~= seq![v@[0], 'o', v@[1]]);
        w2
    } else {
        proof {
            lemma_consonant_count_fewer(v@);
        }
        v
    };
    replace_consonants(&w, &cs)
}

/// The end of the run of Thai-block characters that starts at `i`.
pub open spec fn thai_run_end(s: Seq<char>, i: int) -> int
    decreases s.len() - i,
{
    if 0 <= i < s.len() && thai_block(s[i]) {
        thai_run_end(s, i + 1)
    } else {
        i
    }
}

pub proof fn lemma_thai_run_end(s: Seq<char>, i: int)
    requires
        0 <= i <= s.len(),
    ensures
        i <= thai_run_end(s, i) <= s.len(),
        i < s.len() && thai_block(s[i]) ==> i < thai_run_end(s, i),
        forall|k: int| i <= k < thai_run_end(s, i) ==> thai_block(#[trigger] s[k]),
    decreases s.len() - i,
{
    if i < s.len() && thai_block(s[i]) {
        lemma_thai_run_end(s, i + 1);
    }
}

/// The romanizations of the clusters `ts`, one after the other.
pub open spec fn romanized_words(ts: Seq<Seq<char>>) -> Seq<char>
    decreases ts.len(),
{
    if ts.len() == 0 {
        Seq::empty()
    } else {
        romanized_words(ts.drop_last()) + romanized_word(ts.last())
    }
}

/// The romanization of `s` from position `i` on: each run of Thai-block
/// characters cut into clusters and each cluster romanized; every other
/// character kept.
pub open spec fn romanized_from(s: Seq<char>, i: int) -> Seq<char>
    decreases s.len() - i,
{
    if i < 0 || i >= s.len() {
        Seq::empty()
    } else if thai_block(s[i]) {
        let e = thai_run_end(s, i);
        proof {
            lemma_thai_run_end(s, i);
        }
        romanized_words(tcc_tokens(s.subrange(i, e))) + romanized_from(s, e)
    } else {
        seq![s[i]] + romanized_from(s, i + 1)
    }
}

proof fn lemma_romanized_run(s: Seq<char>, i: int)
    requires
        0 <= i < s.len(),
        thai_block(s[i]),
    ensures
        romanized_from(s, i) == romanized_words(tcc_tokens(s.subrange(i, thai_run_end(s, i))))
            + romanized_from(s, thai_run_end(s, i)),
{
}

/// The romanization of `s`.
pub open spec fn romanized(s: Seq<char>) -> Seq<char> {
    romanized_from(s, 0)
}

/// Romanize Thai text using the Royal Thai General System of Transcription (RTGS).
///
/// Non-Thai characters are passed through unchanged.
pub fn romanize(text: &str) -> (r: String)
    ensures
        r@ == romanized(text@),
{
    let v = str_chars(text);
    let n = v.len();
    let mut out: Vec<char> = Vec::new();
    let mut i: usize = 0;
    while i < n
        invariant
            n == v@.len(),
            v@ == text@,
            i <= n,
            out@ + romanized_from(v@, i as int) == romanized(v@),
        decreases n - i,
    {
        let ghost before = out@;
        if is_thai_char(v[i]) {
            let start = i;
            proof {
                lemma_thai_run_end(v@, i as int);
            }
            while i < n && is_thai_char(v[i])
                invariant
                    n == v@.len(),
                    start <= i <= n,
                    thai_run_end(v@, start as int) == thai_run_end(v@, i as int),
                decreases n - i,
            {
                i = i + 1;
            }
            let mut run: Vec<char> = Vec::new();
            extend_range(&mut run, &v, start, i);
            assert(run@ =~= v@.subrange(start as int, i as int));
            let toks = tcc_units(&run);
            let ghost ts = strings_view(toks@);
            let mut k: usize = 0;
            while k < toks.len()
                invariant
                    k <= toks@.len(),
                    ts == strings_view(toks@),
                    out@ == before + romanized_words(ts.take(k as int)),
                decreases toks.len() - k,
            {
                let t = str_chars(toks[k].as_str());
                let rw = romanize_word(&t);
                extend(&mut out, &rw);
                proof {
                    assert(ts.take(k + 1).drop_last() =~= ts.take(k as int));
                    assert(ts.take(k + 1).last() == t@);
                    assert(out@ =~= before + romanized_words(ts.take(k + 1)));
                }
                k = k + 1;
            }
            proof {
                assert(ts.take(toks@.len() as int) =~= ts);
                lemma_romanized_run(v@, start as int);
                assert(out@ + romanized_from(v@, i as int) =~= before + romanized_from(
                    v@,
                    start as int,
                ));
            }
        } else {
            out.push(v[i]);
            assert(out@ + romanized_from(v@, i + 1) =~= before + romanized_from(v@, i as int));
            i = i + 1;
        }
    }
    string_of(&out)
}

/// Text with no character of the Thai block comes out of romanization as it
/// went in.
pub proof fn lemma_romanize_keeps_non_thai(s: Seq<char>)
    requires
        forall|k: int| 0 <= k < s.len() ==> !thai_block(#[trigger] s[k]),
    ensures
        romanized(s) == s,
{
    lemma_non_thai_from(s, 0);
    assert(s.skip(0) =~= s);
}

proof fn lemma_non_thai_from(s: Seq<char>, i: int)
    requires
        0 <= i <= s.len(),
        forall|k: int| 0 <= k < s.len() ==> !thai_block(#[trigger] s[k]),
    ensures
        romanized_from(s, i) == s.skip(i),
    decreases s.len() - i,
{
    if i < s.len() {
        lemma_non_thai_from(s, i + 1);
        assert(seq![s[i]] + s.skip(i + 1) =~= s.skip(i));
    } else {
        assert(s.skip(i) =~= Seq::<char>::empty());
    }
}

proof fn lemma_run_end_shift(p: Seq<char>, b: Seq<char>, j: int)
    requires
        0 <= j <= b.len(),
    ensures
        thai_run_end(p + b, p.len() + j) == p.len() + thai_run_end(b, j),
    decreases b.len() - j,
{
    if j < b.len() {
        assert((p + b)[p.len() + j] == b[j]);
        lemma_run_end_shift(p, b, j + 1);
    }
}

proof fn lemma_romanized_shift(p: Seq<char>, b: Seq<char>, j: int)
    requires
        0 <= j <= b.len(),
    ensures
        romanized_from(p + b, p.len() + j) == romanized_from(b, j),
    decreases b.len() - j,
{
    let s = p + b;
    let i = p.len() + j;
    if j < b.len() {
        assert(s[i] == b[j]);
        if thai_block(b[j]) {
            lemma_thai_run_end(b, j);
            lemma_run_end_shift(p, b, j);
            let e = thai_run_end(b, j);
            assert(s.subrange(i, p.len() + e) =~= b.subrange(j, e));
            lemma_romanized_shift(p, b, e);
        } else {
            lemma_romanized_shift(p, b, j + 1);
        }
    }
}

/// Whether the join of `a` and `b` has a character outside the Thai block
/// on one side.
pub open spec fn non_thai_join(a: Seq<char>, b: Seq<char>) -> bool {
    (a.len() > 0 && !thai_block(a.last())) || (b.len() > 0 && !thai_block(b[0]))
}

proof fn lemma_run_end_prefix(a: Seq<char>, b: Seq<char>, i: int)
    requires
        0 <= i < a.len(),
        non_thai_join(a, b),
    ensures
        thai_run_end(a + b, i) == thai_run_end(a, i),
    decreases a.len() - i,
{
    let s = a + b;
    assert(s[i] == a[i]);
    if thai_block(a[i]) {
        if i + 1 < a.len() {
            lemma_run_end_prefix(a, b, i + 1);
        } else {
            assert(a.last() == a[i]);
            assert(s[a.len() as int] == b[0]);
        }
    }
}

proof fn lemma_romanized_prefix(a: Seq<char>, b: Seq<char>, i: int)
    requires
        0 <= i <= a.len(),
        non_thai_join(a, b),
    ensures
        romanized_from(a + b, i) == romanized_from(a, i) + romanized_from(b, 0),
    decreases a.len() - i,
{
    let s = a + b;
    if i == a.len() {
        lemma_romanized_shift(a, b, 0);
        assert(romanized_from(a, i) =~= Seq::<char>::empty());
        assert(Seq::<char>::empty() + romanized_from(b, 0) =~= romanized_from(b, 0));
    } else {
        assert(s[i] == a[i]);
        if thai_block(a[i]) {
            lemma_thai_run_end(a, i);
            lemma_run_end_prefix(a, b, i);
            let e = thai_run_end(a, i);
            assert(s.subrange(i, e) =~= a.subrange(i, e));
            lemma_romanized_prefix(a, b, e);
            let w = romanized_words(tcc_tokens(a.subrange(i, e)));
            assert(w + (romanized_from(a, e) + romanized_from(b, 0)) =~= (w + romanized_from(a, e))
                + romanized_from(b, 0));
        } else {
            lemma_romanized_prefix(a, b, i + 1);
            assert(seq![a[i]] + (romanized_from(a, i + 1) + romanized_from(b, 0)) =~= (seq![a[i]]
                + romanized_from(a, i + 1)) + romanized_from(b, 0));
        }
    }
}

/// Where the join of two texts has a character outside the Thai block on
/// one side, the romanization of the joined text is the two romanizations
/// joined.
pub proof fn lemma_romanized_concat(a: Seq<char>, b: Seq<char>)
    requires
        non_thai_join(a, b),
    ensures
        romanized(a + b) == romanized(a) + romanized(b),
{
    lemma_romanized_prefix(a, b, 0);
}

/// The RTGS readings of the consonant letters, initial and final, entry by
/// entry, as the Royal Institute publishes them; ฦ and every other
/// character have none.
pub proof fn lemma_rtgs_table()
    ensures
        rtgs_consonant('ก') == Some((seq!['k'], seq!['k'])),
        rtgs_consonant('ข') == Some((seq!['k', 'h'], seq!['k'])),
        rtgs_consonant('ฃ') == Some((seq!['k', 'h'], seq!['k'])),
        rtgs_consonant('ค') == Some((seq!['k', 'h'], seq!['k'])),
        rtgs_consonant('ฅ') == Some((seq!['k', 'h'], seq!['k'])),
        rtgs_consonant('ฆ') == Some((seq!['k', 'h'], seq!['k'])),
        rtgs_consonant('ง') == Some((seq!['n', 'g'], seq!['n', 'g'])),
        rtgs_consonant('จ') == Some((seq!['c', 'h'], seq!['t'])),
        rtgs_consonant('ฉ') == Some((seq!['c', 'h'], seq!['t'])),
        rtgs_consonant('ช') == Some((seq!['c', 'h'], seq!['t'])),
        rtgs_consonant('ซ') == Some((seq!['s'], seq!['t'])),
        rtgs_consonant('ฌ') == Some((seq!['c', 'h'], seq!['t'])),
        rtgs_consonant('ญ') == Some((seq!['y'], seq!['n'])),
        rtgs_consonant('ฎ') == Some((seq!['d'], seq!['t'])),
        rtgs_consonant('ฏ') == Some((seq!['t'], seq!['t'])),
        rtgs_consonant('ฐ') == Some((seq!['t', 'h'], seq!['t'])),
        rtgs_consonant('ฑ') == Some((seq!['t', 'h'], seq!['t'])),
        rtgs_consonant('ฒ') == Some((seq!['t', 'h'], seq!['t'])),
        rtgs_consonant('ณ') == Some((seq!['n'], seq!['n'])),
        rtgs_consonant('ด') == Some((seq!['d'], seq!['t'])),
        rtgs_consonant('ต') == Some((seq!['t'], seq!['t'])),
        rtgs_consonant('ถ') == Some((seq!['t', 'h'], seq!['t'])),
        rtgs_consonant('ท') == Some((seq!['t', 'h'], seq!['t'])),
        rtgs_consonant('ธ') == Some((seq!['t', 'h'], seq!['t'])),
        rtgs_consonant('น') == Some((seq!['n'], seq!['n'])),
        rtgs_consonant('บ') == Some((seq!['b'], seq!['p'])),
        rtgs_consonant('ป') == Some((seq!['p'], seq!['p'])),
        rtgs_consonant('ผ') == Some((seq!['p', 'h'], seq!['p'])),
        rtgs_consonant('ฝ') == Some((seq!['f'], seq!['p'])),
        rtgs_consonant('พ') == Some((seq!['p', 'h'], seq!['p'])),
        rtgs_consonant('ฟ') == Some((seq!['f'], seq!['p'])),
        rtgs_consonant('ภ') == Some((seq!['p', 'h'], seq!['p'])),
        rtgs_consonant('ม') == Some((seq!['m'], seq!['m'])),
        rtgs_consonant('ย') == Some((seq!['y'], Seq::<char>::empty())),
        rtgs_consonant('ร') == Some((seq!['r'], seq!['n'])),
        rtgs_consonant('ฤ') == Some((seq!['r', 'u', 'e'], Seq::<char>::empty())),
        rtgs_consonant('ล') == Some((seq!['l'], seq!['n'])),
        rtgs_consonant('ว') == Some((seq!['w'], Seq::<char>::empty())),
        rtgs_consonant('ศ') == Some((seq!['s'], seq!['t'])),
        rtgs_consonant('ษ') == Some((seq!['s'], seq!['t'])),
        rtgs_consonant('ส') == Some((seq!['s'], seq!['t'])),
        rtgs_consonant('ห') == Some((seq!['h'], Seq::<char>::empty())),
        rtgs_consonant('ฬ') == Some((seq!['l'], seq!['n'])),
        rtgs_consonant('อ') == Some((Seq::<char>::empty(), Seq::<char>::empty())),
        rtgs_consonant('ฮ') == Some((seq!['h'], Seq::<char>::empty())),
        forall|c: char| !(c == 'ก' || c == 'ข' || c == 'ฃ' || c == 'ค' || c == 'ฅ' || c == 'ฆ' || c == 'ง' || c == 'จ' || c == 'ฉ' || c == 'ช' || c == 'ซ' || c == 'ฌ' || c == 'ญ' || c == 'ฎ' || c == 'ฏ' || c == 'ฐ' || c == 'ฑ' || c == 'ฒ' || c == 'ณ' || c == 'ด' || c == 'ต' || c == 'ถ' || c == 'ท' || c == 'ธ' || c == 'น' || c == 'บ' || c == 'ป' || c == 'ผ' || c == 'ฝ' || c == 'พ' || c == 'ฟ' || c == 'ภ' || c == 'ม' || c == 'ย' || c == 'ร' || c == 'ฤ' || c == 'ล' || c == 'ว' || c == 'ศ' || c == 'ษ' || c == 'ส' || c == 'ห' || c == 'ฬ' || c == 'อ' || c == 'ฮ') ==> #[trigger] rtgs_consonant(c) is None,
{
    assert(rtgs_consonant('ก') == Some((seq!['k'], seq!['k'])));
    assert(rtgs_consonant('ข') == Some((seq!['k', 'h'], seq!['k'])));
    assert(rtgs_consonant('ฃ') == Some((seq!['k', 'h'], seq!['k'])));
    assert(rtgs_consonant('ค') == Some((seq!['k', 'h'], seq!['k'])));
    assert(rtgs_consonant('ฅ') == Some((seq!['k', 'h'], seq!['k'])));
    assert(rtgs_consonant('ฆ') == Some((seq!['k', 'h'], seq!['k'])));
    assert(rtgs_consonant('ง') == Some((seq!['n', 'g'], seq!['n', 'g'])));
    assert(rtgs_consonant('จ') == Some((seq!['c', 'h'], seq!['t'])));
    assert(rtgs_consonant('ฉ') == Some((seq!['c', 'h'], seq!['t'])));
    assert(rtgs_consonant('ช') == Some((seq!['c', 'h'], seq!['t'])));
    assert(rtgs_consonant('ซ') == Some((seq!['s'], seq!['t'])));
    assert(rtgs_consonant('ฌ') == Some((seq!['c', 'h'], seq!['t'])));
    assert(rtgs_consonant('ญ') == Some((seq!['y'], seq!['n'])));
    assert(rtgs_consonant('ฎ') == Some((seq!['d'], seq!['t'])));
    assert(rtgs_consonant('ฏ') == Some((seq!['t'], seq!['t'])));
    assert(rtgs_consonant('ฐ') == Some((seq!['t', 'h'], seq!['t'])));
    assert(rtgs_consonant('ฑ') == Some((seq!['t', 'h'], seq!['t'])));
    assert(rtgs_consonant('ฒ') == Some((seq!['t', 'h'], seq!['t'])));
    assert(rtgs_consonant('ณ') == Some((seq!['n'], seq!['n'])));
    assert(rtgs_consonant('ด') == Some((seq!['d'], seq!['t'])));
    assert(rtgs_consonant('ต') == Some((seq!['t'], seq!['t'])));
    assert(rtgs_consonant('ถ') == Some((seq!['t', 'h'], seq!['t'])));
    assert(rtgs_consonant('ท') == Some((seq!['t', 'h'], seq!['t'])));
    assert(rtgs_consonant('ธ') == Some((seq!['t', 'h'], seq!['t'])));
    assert(rtgs_consonant('น') == Some((seq!['n'], seq!['n'])));
    assert(rtgs_consonant('บ') == Some((seq!['b'], seq!['p'])));
    assert(rtgs_consonant('ป') == Some((seq!['p'], seq!['p'])));
    assert(rtgs_consonant('ผ') == Some((seq!['p', 'h'], seq!['p'])));
    assert(rtgs_consonant('ฝ') == Some((seq!['f'], seq!['p'])));
    assert(rtgs_consonant('พ') == Some((seq!['p', 'h'], seq!['p'])));
    assert(rtgs_consonant('ฟ') == Some((seq!['f'], seq!['p'])));
    assert(rtgs_consonant('ภ') == Some((seq!['p', 'h'], seq!['p'])));
    assert(rtgs_consonant('ม') == Some((seq!['m'], seq!['m'])));
    assert(rtgs_consonant('ย') == Some((seq!['y'], Seq::<char>::empty())));
    assert(rtgs_consonant('ร') == Some((seq!['r'], seq!['n'])));
    assert(rtgs_consonant('ฤ') == Some((seq!['r', 'u', 'e'], Seq::<char>::empty())));
    assert(rtgs_consonant('ล') == Some((seq!['l'], seq!['n'])));
    assert(rtgs_consonant('ว') == Some((seq!['w'], Seq::<char>::empty())));
    assert(rtgs_consonant('ศ') == Some((seq!['s'], seq!['t'])));
    assert(rtgs_consonant('ษ') == Some((seq!['s'], seq!['t'])));
    assert(rtgs_consonant('ส') == Some((seq!['s'], seq!['t'])));
    assert(rtgs_consonant('ห') == Some((seq!['h'], Seq::<char>::empty())));
    assert(rtgs_consonant('ฬ') == Some((seq!['l'], seq!['n'])));
    assert(rtgs_consonant('อ') == Some((Seq::<char>::empty(), Seq::<char>::empty())));
    assert(rtgs_consonant('ฮ') == Some((seq!['h'], Seq::<char>::empty())));
}

} // verus!
