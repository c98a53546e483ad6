//! Leftmost-first rewriting of character sequences by ordered alternatives of
//! fixed-length patterns: the form in which the library states its
//! normalization rules (soundex, romanization, collation keys).
//!
//! Scanning from the left, at each position the first alternative whose
//! pattern matches there is replaced by its output and the scan continues
//! after the matched characters; where no alternative matches, the character
//! is kept and the scan moves on by one.
use vstd::prelude::*;
use crate::characters::{consonant_range, is_thai_consonant, lead_vowel, thai_consonant};

verus! {

/// A class of characters that one pattern position accepts.
#[derive(Clone, Copy, PartialEq, Eq, Structural)]
pub enum Cls {
    /// Exactly this character.
    Ch(char),
    /// Any character in the inclusive range.
    Rng(char, char),
    /// One of the 44 consonants of `THAI_CONSONANTS`.
    Consonant,
    /// A consonant of the range ก..ฮ or a lead vowel เ..ไ.
    ConsOrLead,
    /// A vowel sign U+0E30..U+0E45 or a mark U+0E48..U+0E4C.
    VowelOrMark,
    /// One of ค น พ ม ห (read "rue" before ฤ).
    RueInitial,
    /// One of ก ต ท ป ศ ส (read "ri" before ฤ).
    RiInitial,
    /// One of the vowels ิ ุ ู.
    VowelIUU,
    /// One of the vowels ิ ี ุ ู.
    VowelIIUU,
    /// One of the vowels ะ า ำ.
    VowelAAAm,
}

/// An item of a replacement: a fixed character, or the character that the
/// pattern matched at the given position.
#[derive(Clone, Copy, PartialEq, Eq, Structural)]
pub enum Out {
    Lit(char),
    Cap(usize),
}

/// One alternative of a rule: a pattern and its replacement.
pub struct Alt {
    pub pat: Vec<Cls>,
    pub out: Vec<Out>,
}

/// The mathematical form of an alternative.
pub struct AltSpec {
    pub pat: Seq<Cls>,
    pub out: Seq<Out>,
}

impl View for Alt {
    type V = AltSpec;

    open spec fn view(&self) -> AltSpec {
        AltSpec { pat: self.pat@, out: self.out@ }
    }
}

/// A rule: alternatives tried in order at each position.
pub struct Rule {
    pub alts: Vec<Alt>,
}

impl View for Rule {
    type V = Seq<AltSpec>;

    open spec fn view(&self) -> Seq<AltSpec> {
        Seq::new(self.alts@.len(), |i: int| self.alts@[i]@)
    }
}

pub open spec fn cls_has(k: Cls, c: char) -> bool {
    match k {
        Cls::Ch(x) => c == x,
        Cls::Rng(lo, hi) => lo <= c && c <= hi,
        Cls::Consonant => thai_consonant(c),
        Cls::ConsOrLead => consonant_range(c) || lead_vowel(c),
        Cls::VowelOrMark => ('\u{0e30}' <= c && c <= '\u{0e45}') || ('\u{0e48}' <= c && c
            <= '\u{0e4c}'),
        Cls::RueInitial => c == 'ค' || c == 'น' || c == 'พ' || c == 'ม' || c == 'ห',
        Cls::RiInitial => c == 'ก' || c == 'ต' || c == 'ท' || c == 'ป' || c == 'ศ' || c == 'ส',
        Cls::VowelIUU => c == '\u{0e34}' || c == '\u{0e38}' || c == '\u{0e39}',
        Cls::VowelIIUU => c == '\u{0e34}' || c == '\u{0e35}' || c == '\u{0e38}' || c == '\u{0e39}',
        Cls::VowelAAAm => c == '\u{0e30}' || c == '\u{0e32}' || c == '\u{0e33}',
    }
}

pub fn cls_test(k: Cls, c: char) -> (r: bool)
    ensures
        r == cls_has(k, c),
{
    match k {
        Cls::Ch(x) => c == x,
        Cls::Rng(lo, hi) => lo <= c && c <= hi,
        Cls::Consonant => is_thai_consonant(c),
        Cls::ConsOrLead => ('\u{0e01}' <= c && c <= '\u{0e2e}') || ('\u{0e40}' <= c && c
            <= '\u{0e44}'),
        Cls::VowelOrMark => ('\u{0e30}' <= c && c <= '\u{0e45}') || ('\u{0e48}' <= c && c
            <= '\u{0e4c}'),
        Cls::RueInitial => c == 'ค' || c == 'น' || c == 'พ' || c == 'ม' || c == 'ห',
        Cls::RiInitial => c == 'ก' || c == 'ต' || c == 'ท' || c == 'ป' || c == 'ศ' || c == 'ส',
        Cls::VowelIUU => c == '\u{0e34}' || c == '\u{0e38}' || c == '\u{0e39}',
        Cls::VowelIIUU => c == '\u{0e34}' || c == '\u{0e35}' || c == '\u{0e38}' || c == '\u{0e39}',
        Cls::VowelAAAm => c == '\u{0e30}' || c == '\u{0e32}' || c == '\u{0e33}',
    }
}

/// Whether pattern `p` matches `s` at position `i`.
pub open spec fn matches_at(p: Seq<Cls>, s: Seq<char>, i: int) -> bool {
    &&& 0 <= i
    &&& i + p.len() <= s.len()
    &&& forall|k: int| 0 <= k < p.len() ==> cls_has(#[trigger] p[k], s[i + k])
}

/// Every pattern is non-empty and every captured position lies in its pattern.
pub open spec fn rule_wf(r: Seq<AltSpec>) -> bool {
    forall|a: int|
        0 <= a < r.len() ==> {
            &&& (#[trigger] r[a]).pat.len() > 0
            &&& forall|k: int|
                0 <= k < r[a].out.len() ==> match #[trigger] r[a].out[k] {
                    Out::Lit(_) => true,
                    Out::Cap(j) => j < r[a].pat.len(),
                }
        }
}

/// The first alternative, from index `a` on, whose pattern matches at `i`.
pub open spec fn first_alt(r: Seq<AltSpec>, s: Seq<char>, i: int, a: int) -> Option<int>
    decreases r.len() - a,
{
    if a < 0 || a >= r.len() {
        None
    } else if matches_at(r[a].pat, s, i) {
        Some(a)
    } else {
        first_alt(r, s, i, a + 1)
    }
}

pub open spec fn out_char(o: Out, s: Seq<char>, i: int) -> char {
    match o {
        Out::Lit(c) => c,
        Out::Cap(k) => s[i + k],
    }
}

/// The replacement `out` for a match at position `i` of `s`.
pub open spec fn instantiate(out: Seq<Out>, s: Seq<char>, i: int) -> Seq<char> {
    out.map_values(|o: Out| out_char(o, s, i))
}

/// The rewriting of `s` from position `i` on.
pub open spec fn rewrite_from(r: Seq<AltSpec>, s: Seq<char>, i: int) -> Seq<char>
    decreases s.len() - i,
{
    if i < 0 || i >= s.len() {
        Seq::empty()
    } else {
        match first_alt(r, s, i, 0) {
            Some(a) => {
                if 0 <= a < r.len() && r[a].pat.len() > 0 && i + r[a].pat.len() <= s.len() {
                    instantiate(r[a].out, s, i) + rewrite_from(r, s, i + r[a].pat.len())
                } else {
                    seq![s[i]] + rewrite_from(r, s, i + 1)
                }
            },
            None => seq![s[i]] + rewrite_from(r, s, i + 1),
        }
    }
}

/// The rewriting of all of `s` by rule `r`.
pub open spec fn rewrite(r: Seq<AltSpec>, s: Seq<char>) -> Seq<char> {
    rewrite_from(r, s, 0)
}

proof fn lemma_first_alt_range(r: Seq<AltSpec>, s: Seq<char>, i: int, a: int)
    requires
        0 <= a,
    ensures
        first_alt(r, s, i, a) matches Some(x) ==> a <= x < r.len() && matches_at(r[x].pat, s, i),
        first_alt(r, s, i, a) is None ==> forall|x: int|
            a <= x < r.len() ==> !matches_at(#[trigger] r[x].pat, s, i),
    decreases r.len() - a,
{
    if a >= 0 && a < r.len() && !matches_at(r[a].pat, s, i) {
        lemma_first_alt_range(r, s, i, a + 1);
    }
}

fn pattern_matches(p: &Vec<Cls>, s: &Vec<char>, i: usize) -> (r: bool)
    ensures
        r == matches_at(p@, s@, i as int),
{
    if p.len() > s.len() || i > s.len() - p.len() {
        return false;
    }
    let mut k: usize = 0;
    while k < p.len()
        invariant
            i + p@.len() <= s@.len(),
            s@.len() == s.len(),
            k <= p@.len(),
            forall|m: int| 0 <= m < k ==> cls_has(#[trigger] p@[m], s@[i + m]),
        decreases p.len() - k,
    {
        let idx = i + k;
        if !cls_test(p[k], s[idx]) {
            return false;
        }
        k = k + 1;
    }
    true
}

fn find_alt(r: &Rule, s: &Vec<char>, i: usize) -> (res: Option<usize>)
    ensures
        res matches Some(x) ==> first_alt(r@, s@, i as int, 0) == Some(x as int),
        res is None ==> first_alt(r@, s@, i as int, 0) is None,
{
    let mut a: usize = 0;
    while a < r.alts.len()
        invariant
            a <= r.alts@.len(),
            r@.len() == r.alts@.len(),
            first_alt(r@, s@, i as int, 0) == first_alt(r@, s@, i as int, a as int),
        decreases r.alts.len() - a,
    {
        if pattern_matches(&r.alts[a].pat, s, i) {
            return Some(a);
        }
        a = a + 1;
    }
    None
}

/// Rewrites `s` by rule `r`.
pub fn apply_rule(r: &Rule, s: &Vec<char>) -> (res: Vec<char>)
    requires
        rule_wf(r@),
    ensures
        res@ == rewrite(r@, s@),
{
    let mut res: Vec<char> = Vec::new();
    let mut i: usize = 0;
    while i < s.len()
        invariant
            i <= s@.len(),
            rule_wf(r@),
            r@.len() == r.alts@.len(),
            res@ + rewrite_from(r@, s@, i as int) == rewrite(r@, s@),
        decreases s.len() - i,
    {
        let ghost before = res@;
        match find_alt(r, s, i) {
            Some(a) => {
                proof {
                    lemma_first_alt_range(r@, s@, i as int, 0);
                }
                let alt = &r.alts[a];
                let plen = alt.pat.len();
                let mut k: usize = 0;
                while k < alt.out.len()
                    invariant
                        rule_wf(r@),
                        r@.len() == r.alts@.len(),
                        a < r@.len(),
                        alt@ == r@[a as int],
                        plen == alt.pat@.len(),
                        matches_at(alt.pat@, s@, i as int),
                        s@.len() == s.len(),
                        k <= alt.out@.len(),
                        res@ == before + instantiate(alt.out@, s@, i as int).take(k as int),
                    decreases alt.out.len() - k,
                {
                    let o = alt.out[k];
                    let c = match o {
                        Out::Lit(c) => c,
                        Out::Cap(j) => {
                            assert(r@[a as int].out[k as int] == o);
                            assert(j < r@[a as int].pat.len());
                            assert(i + j < s@.len());
                            s[i + j]
                        },
                    };
                    res.push(c);
                    k = k + 1;
                    assert(res@ =~= before + instantiate(alt.out@, s@, i as int).take(k as int));
                }
                assert(instantiate(alt.out@, s@, i as int).take(k as int) =~= instantiate(
                    alt.out@,
                    s@,
                    i as int,
                ));
                assert(res@ + rewrite_from(r@, s@, (i + plen) as int) =~= before + rewrite_from(
                    r@,
                    s@,
                    i as int,
                ));
                i = i + plen;
            },
            None => {
                res.push(s[i]);
                assert(res@ + rewrite_from(r@, s@, (i + 1) as int) =~= before + rewrite_from(
                    r@,
                    s@,
                    i as int,
                ));
                i = i + 1;
            },
        }
    }
    res
}

} // verus!
