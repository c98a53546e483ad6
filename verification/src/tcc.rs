//! The Thai Character Cluster (TCC) grammar (Theeramunkong et al. 2000).
//!
//! A cluster is matched by the first of an ordered list of patterns. A
//! pattern is a sequence of elements: a required character of a class, an
//! optional one (taken where present), an optional tonemark followed by a
//! consonant (taken as a pair or not at all), or the optional final cluster
//! consonant, consonant?, ิ ุ ู?, ์ (taken as a whole or not at all).
use vstd::prelude::*;
use crate::characters::{consonant_range, lead_vowel};
use crate::rewrite::{Cls, cls_has, cls_test};

verus! {

/// An element of a cluster pattern.
#[derive(Clone, Copy, PartialEq, Eq, Structural)]
pub enum Elem {
    /// A character of the class.
    One(Cls),
    /// A character of the class where there is one.
    Maybe(Cls),
    /// A tonemark followed by a consonant of ก..ฮ, where both are there.
    ToneConsonant,
    /// Consonant, optional consonant, optional ิ ุ ู, then ์, where all of
    /// the required parts are there.
    FinalCluster,
}

/// Whether position `i` of `s` holds a character of class `k`.
pub open spec fn has_at(k: Cls, s: Seq<char>, i: int) -> bool {
    0 <= i < s.len() && cls_has(k, s[i])
}

/// The characters of ก..ฮ.
pub open spec fn cons_cls() -> Cls {
    Cls::Rng('ก', 'ฮ')
}

/// The length of the final cluster at `i` (zero where there is none).
pub open spec fn final_cluster_len(s: Seq<char>, i: int) -> nat {
    if has_at(cons_cls(), s, i) {
        let p = i + 1;
        let p = if has_at(cons_cls(), s, p) { p + 1 } else { p };
        let p = if has_at(Cls::VowelIUU, s, p) { p + 1 } else { p };
        if has_at(Cls::Ch('\u{0e4c}'), s, p) {
            (p + 1 - i) as nat
        } else {
            0
        }
    } else {
        0
    }
}

/// The number of characters element `e` takes at `i`, or `None` where a
/// required character is missing.
pub open spec fn elem_len(e: Elem, s: Seq<char>, i: int) -> Option<nat> {
    match e {
        Elem::One(k) => if has_at(k, s, i) {
            Some(1)
        } else {
            None
        },
        Elem::Maybe(k) => if has_at(k, s, i) {
            Some(1)
        } else {
            Some(0)
        },
        Elem::ToneConsonant => if has_at(Cls::Rng('\u{0e48}', '\u{0e4b}'), s, i) && has_at(
            cons_cls(),
            s,
            i + 1,
        ) {
            Some(2)
        } else {
            Some(0)
        },
        Elem::FinalCluster => Some(final_cluster_len(s, i)),
    }
}

/// The number of characters that the elements `p[j..]` take from `i` on.
pub open spec fn pattern_len(p: Seq<Elem>, j: int, s: Seq<char>, i: int) -> Option<nat>
    decreases p.len() - j,
{
    if j < 0 || j >= p.len() {
        Some(0)
    } else {
        match elem_len(p[j], s, i) {
            None => None,
            Some(k) => match pattern_len(p, j + 1, s, i + k) {
                None => None,
                Some(m) => Some(k + m),
            },
        }
    }
}

/// The length of the cluster matched by the first matching pattern from
/// index `a` on, with the patterns tried in order.
pub open spec fn first_pattern_len(ps: Seq<Seq<Elem>>, a: int, s: Seq<char>, i: int) -> Option<
    nat,
>
    decreases ps.len() - a,
{
    if a < 0 || a >= ps.len() {
        None
    } else {
        match pattern_len(ps[a], 0, s, i) {
            Some(k) => Some(k),
            None => first_pattern_len(ps, a + 1, s, i),
        }
    }
}

/// The length of the Thai Character Cluster at position `i`, where one starts there.
pub open spec fn tcc_match(s: Seq<char>, i: int) -> Option<nat> {
    first_pattern_len(tcc_patterns(), 0, s, i)
}

/// The length of the unit that the cluster tokenizer takes at `i`: the
/// cluster, or one character where none starts there.
pub open spec fn tcc_unit(s: Seq<char>, i: int) -> nat {
    match tcc_match(s, i) {
        Some(k) => k,
        None => 1,
    }
}

/// The views of a list of patterns.
pub open spec fn patterns_view(r: Seq<Vec<Elem>>) -> Seq<Seq<Elem>> {
    r.map_values(|p: Vec<Elem>| p@)
}

/// The Thai Character Cluster patterns, in the order in which they are tried:
/// - -ั with an optional tone and consonant
/// - -ั with an optional tone and consonant, and a final cluster
/// - เ-็-
/// - เ--าะ
/// - เ--ียะ
/// - เ--ีย
/// - เ-ิย, เ-ีย, เ-ุย, เ-ูย
/// - เ--็-
/// - เ-ิ-์-
/// - เ-ิ-
/// - เ-ีย and เ-ียะ
/// - เ-ือะ
/// - เ-ื
/// - เ-, เ-า, เ-ะ, เ-าะ
/// - -ึ- and -ื-
/// - a consonant and a vowel ะ..ู
/// - -ิ์, -ุ์, -ู์
/// - -รร-์
/// - -็
/// - a consonant with an optional tone, ะ า or ำ, and final cluster
/// - แ-็-
/// - แ--์
/// - แ-ะ
/// - แ--็-
/// - แ---์
/// - โ-ะ
/// - a lead vowel and a consonant
/// - ก็
/// - อึ
/// - หึ
pub open spec fn tcc_patterns() -> Seq<Seq<Elem>> {
    seq![
        seq![Elem::One(Cls::Rng('ก', 'ฮ')), Elem::One(Cls::Ch('\u{0e31}')), Elem::ToneConsonant],
        seq![Elem::One(Cls::Rng('ก', 'ฮ')), Elem::One(Cls::Ch('\u{0e31}')), Elem::ToneConsonant, Elem::FinalCluster],
        seq![Elem::One(Cls::Ch('\u{0e40}')), Elem::One(Cls::Rng('ก', 'ฮ')), Elem::One(Cls::Ch('\u{0e47}')), Elem::One(Cls::Rng('ก', 'ฮ')), Elem::FinalCluster],
        seq![Elem::One(Cls::Ch('\u{0e40}')), Elem::One(Cls::Rng('ก', 'ฮ')), Elem::One(Cls::Rng('ก', 'ฮ')), Elem::Maybe(Cls::Rng('\u{0e48}', '\u{0e4b}')), Elem::One(Cls::Ch('\u{0e32}')), Elem::One(Cls::Ch('\u{0e30}')), Elem::FinalCluster],
        seq![Elem::One(Cls::Ch('\u{0e40}')), Elem::One(Cls::Rng('ก', 'ฮ')), Elem::One(Cls::Rng('ก', 'ฮ')), Elem::One(Cls::Ch('\u{0e35}')), Elem::Maybe(Cls::Rng('\u{0e48}', '\u{0e4b}')), Elem::One(Cls::Ch('ย')), Elem::One(Cls::Ch('\u{0e30}')), Elem::FinalCluster],
        seq![Elem::One(Cls::Ch('\u{0e40}')), Elem::One(Cls::Rng('ก', 'ฮ')), Elem::One(Cls::Rng('ก', 'ฮ')), Elem::One(Cls::Ch('\u{0e35}')), Elem::Maybe(Cls::Rng('\u{0e48}', '\u{0e4b}')), Elem::One(Cls::Ch('ย')), Elem::FinalCluster],
        seq![Elem::One(Cls::Ch('\u{0e40}')), Elem::One(Cls::Rng('ก', 'ฮ')), Elem::One(Cls::VowelIIUU), Elem::Maybe(Cls::Rng('\u{0e48}', '\u{0e4b}')), Elem::One(Cls::Ch('ย')), Elem::FinalCluster],
        seq![Elem::One(Cls::Ch('\u{0e40}')), Elem::One(Cls::Rng('ก', 'ฮ')), Elem::One(Cls::Rng('ก', 'ฮ')), Elem::One(Cls::Ch('\u{0e47}')), Elem::One(Cls::Rng('ก', 'ฮ')), Elem::FinalCluster],
        seq![Elem::One(Cls::Ch('\u{0e40}')), Elem::One(Cls::Rng('ก', 'ฮ')), Elem::One(Cls::Ch('\u{0e34}')), Elem::One(Cls::Rng('ก', 'ฮ')), Elem::One(Cls::Ch('\u{0e4c}')), Elem::One(Cls::Rng('ก', 'ฮ')), Elem::FinalCluster],
        seq![Elem::One(Cls::Ch('\u{0e40}')), Elem::One(Cls::Rng('ก', 'ฮ')), Elem::One(Cls::Ch('\u{0e34}')), Elem::Maybe(Cls::Rng('\u{0e48}', '\u{0e4b}')), Elem::One(Cls::Rng('ก', 'ฮ')), Elem::FinalCluster],
        seq![Elem::One(Cls::Ch('\u{0e40}')), Elem::One(Cls::Rng('ก', 'ฮ')), Elem::One(Cls::Ch('\u{0e35}')), Elem::Maybe(Cls::Rng('\u{0e48}', '\u{0e4b}')), Elem::One(Cls::Ch('ย')), Elem::Maybe(Cls::Ch('\u{0e30}')), Elem::FinalCluster],
        seq![Elem::One(Cls::Ch('\u{0e40}')), Elem::One(Cls::Rng('ก', 'ฮ')), Elem::One(Cls::Ch('\u{0e37}')), Elem::Maybe(Cls::Rng('\u{0e48}', '\u{0e4b}')), Elem::One(Cls::Ch('อ')), Elem::One(Cls::Ch('\u{0e30}')), Elem::FinalCluster],
        seq![Elem::One(Cls::Ch('\u{0e40}')), Elem::One(Cls::Rng('ก', 'ฮ')), Elem::One(Cls::Ch('\u{0e37}'))],
        seq![Elem::One(Cls::Ch('\u{0e40}')), Elem::One(Cls::Rng('ก', 'ฮ')), Elem::Maybe(Cls::Rng('\u{0e48}', '\u{0e4b}')), Elem::Maybe(Cls::Ch('\u{0e32}')), Elem::Maybe(Cls::Ch('\u{0e30}')), Elem::FinalCluster],
        seq![Elem::One(Cls::Rng('ก', 'ฮ')), Elem::One(Cls::Rng('\u{0e36}', '\u{0e37}')), Elem::Maybe(Cls::Rng('\u{0e48}', '\u{0e4b}')), Elem::One(Cls::Rng('ก', 'ฮ')), Elem::FinalCluster],
        seq![Elem::One(Cls::Rng('ก', 'ฮ')), Elem::One(Cls::Rng('\u{0e30}', '\u{0e39}')), Elem::Maybe(Cls::Rng('\u{0e48}', '\u{0e4b}')), Elem::FinalCluster],
        seq![Elem::One(Cls::Rng('ก', 'ฮ')), Elem::One(Cls::VowelIUU), Elem::One(Cls::Ch('\u{0e4c}'))],
        seq![Elem::One(Cls::Rng('ก', 'ฮ')), Elem::One(Cls::Ch('ร')), Elem::One(Cls::Ch('ร')), Elem::One(Cls::Rng('ก', 'ฮ')), Elem::One(Cls::Ch('\u{0e4c}'))],
        seq![Elem::One(Cls::Rng('ก', 'ฮ')), Elem::One(Cls::Ch('\u{0e47}'))],
        seq![Elem::One(Cls::Rng('ก', 'ฮ')), Elem::Maybe(Cls::Rng('\u{0e48}', '\u{0e4b}')), Elem::Maybe(Cls::VowelAAAm), Elem::FinalCluster],
        seq![Elem::One(Cls::Ch('\u{0e41}')), Elem::One(Cls::Rng('ก', 'ฮ')), Elem::One(Cls::Ch('\u{0e47}')), Elem::One(Cls::Rng('ก', 'ฮ')), Elem::FinalCluster],
        seq![Elem::One(Cls::Ch('\u{0e41}')), Elem::One(Cls::Rng('ก', 'ฮ')), Elem::One(Cls::Rng('ก', 'ฮ')), Elem::One(Cls::Ch('\u{0e4c}')), Elem::FinalCluster],
        seq![Elem::One(Cls::Ch('\u{0e41}')), Elem::One(Cls::Rng('ก', 'ฮ')), Elem::Maybe(Cls::Rng('\u{0e48}', '\u{0e4b}')), Elem::One(Cls::Ch('\u{0e30}')), Elem::FinalCluster],
        seq![Elem::One(Cls::Ch('\u{0e41}')), Elem::One(Cls::Rng('ก', 'ฮ')), Elem::One(Cls::Rng('ก', 'ฮ')), Elem::One(Cls::Ch('\u{0e47}')), Elem::One(Cls::Rng('ก', 'ฮ')), Elem::FinalCluster],
        seq![Elem::One(Cls::Ch('\u{0e41}')), Elem::One(Cls::Rng('ก', 'ฮ')), Elem::One(Cls::Rng('ก', 'ฮ')), Elem::One(Cls::Rng('ก', 'ฮ')), Elem::One(Cls::Ch('\u{0e4c}')), Elem::FinalCluster],
        seq![Elem::One(Cls::Ch('\u{0e42}')), Elem::One(Cls::Rng('ก', 'ฮ')), Elem::Maybe(Cls::Rng('\u{0e48}', '\u{0e4b}')), Elem::One(Cls::Ch('\u{0e30}')), Elem::FinalCluster],
        seq![Elem::One(Cls::Rng('\u{0e40}', '\u{0e44}')), Elem::One(Cls::Rng('ก', 'ฮ')), Elem::Maybe(Cls::Rng('\u{0e48}', '\u{0e4b}')), Elem::FinalCluster],
        seq![Elem::One(Cls::Ch('ก')), Elem::One(Cls::Ch('\u{0e47}'))],
        seq![Elem::One(Cls::Ch('อ')), Elem::One(Cls::Ch('\u{0e36}'))],
        seq![Elem::One(Cls::Ch('ห')), Elem::One(Cls::Ch('\u{0e36}'))],
    ]
}

/// Builds the Thai Character Cluster patterns.
pub fn make_tcc_patterns() -> (r: Vec<Vec<Elem>>)
    ensures
        patterns_view(r@) == tcc_patterns(),
{
    let r = vec![
        vec![Elem::One(Cls::Rng('ก', 'ฮ')), Elem::One(Cls::Ch('\u{0e31}')), Elem::ToneConsonant],
        vec![Elem::One(Cls::Rng('ก', 'ฮ')), Elem::One(Cls::Ch('\u{0e31}')), Elem::ToneConsonant, Elem::FinalCluster],
        vec![Elem::One(Cls::Ch('\u{0e40}')), Elem::One(Cls::Rng('ก', 'ฮ')), Elem::One(Cls::Ch('\u{0e47}')), Elem::One(Cls::Rng('ก', 'ฮ')), Elem::FinalCluster],
        vec![Elem::One(Cls::Ch('\u{0e40}')), Elem::One(Cls::Rng('ก', 'ฮ')), Elem::One(Cls::Rng('ก', 'ฮ')), Elem::Maybe(Cls::Rng('\u{0e48}', '\u{0e4b}')), Elem::One(Cls::Ch('\u{0e32}')), Elem::One(Cls::Ch('\u{0e30}')), Elem::FinalCluster],
        vec![Elem::One(Cls::Ch('\u{0e40}')), Elem::One(Cls::Rng('ก', 'ฮ')), Elem::One(Cls::Rng('ก', 'ฮ')), Elem::One(Cls::Ch('\u{0e35}')), Elem::Maybe(Cls::Rng('\u{0e48}', '\u{0e4b}')), Elem::One(Cls::Ch('ย')), Elem::One(Cls::Ch('\u{0e30}')), Elem::FinalCluster],
        vec![Elem::One(Cls::Ch('\u{0e40}')), Elem::One(Cls::Rng('ก', 'ฮ')), Elem::One(Cls::Rng('ก', 'ฮ')), Elem::One(Cls::Ch('\u{0e35}')), Elem::Maybe(Cls::Rng('\u{0e48}', '\u{0e4b}')), Elem::One(Cls::Ch('ย')), Elem::FinalCluster],
        vec![Elem::One(Cls::Ch('\u{0e40}')), Elem::One(Cls::Rng('ก', 'ฮ')), Elem::One(Cls::VowelIIUU), Elem::Maybe(Cls::Rng('\u{0e48}', '\u{0e4b}')), Elem::One(Cls::Ch('ย')), Elem::FinalCluster],
        vec![Elem::One(Cls::Ch('\u{0e40}')), Elem::One(Cls::Rng('ก', 'ฮ')), Elem::One(Cls::Rng('ก', 'ฮ')), Elem::One(Cls::Ch('\u{0e47}')), Elem::One(Cls::Rng('ก', 'ฮ')), Elem::FinalCluster],
        vec![Elem::One(Cls::Ch('\u{0e40}')), Elem::One(Cls::Rng('ก', 'ฮ')), Elem::One(Cls::Ch('\u{0e34}')), Elem::One(Cls::Rng('ก', 'ฮ')), Elem::One(Cls::Ch('\u{0e4c}')), Elem::One(Cls::Rng('ก', 'ฮ')), Elem::FinalCluster],
        vec![Elem::One(Cls::Ch('\u{0e40}')), Elem::One(Cls::Rng('ก', 'ฮ')), Elem::One(Cls::Ch('\u{0e34}')), Elem::Maybe(Cls::Rng('\u{0e48}', '\u{0e4b}')), Elem::One(Cls::Rng('ก', 'ฮ')), Elem::FinalCluster],
        vec![Elem::One(Cls::Ch('\u{0e40}')), Elem::One(Cls::Rng('ก', 'ฮ')), Elem::One(Cls::Ch('\u{0e35}')), Elem::Maybe(Cls::Rng('\u{0e48}', '\u{0e4b}')), Elem::One(Cls::Ch('ย')), Elem::Maybe(Cls::Ch('\u{0e30}')), Elem::FinalCluster],
        vec![Elem::One(Cls::Ch('\u{0e40}')), Elem::One(Cls::Rng('ก', 'ฮ')), Elem::One(Cls::Ch('\u{0e37}')), Elem::Maybe(Cls::Rng('\u{0e48}', '\u{0e4b}')), Elem::One(Cls::Ch('อ')), Elem::One(Cls::Ch('\u{0e30}')), Elem::FinalCluster],
        vec![Elem::One(Cls::Ch('\u{0e40}')), Elem::One(Cls::Rng('ก', 'ฮ')), Elem::One(Cls::Ch('\u{0e37}'))],
        vec![Elem::One(Cls::Ch('\u{0e40}')), Elem::One(Cls::Rng('ก', 'ฮ')), Elem::Maybe(Cls::Rng('\u{0e48}', '\u{0e4b}')), Elem::Maybe(Cls::Ch('\u{0e32}')), Elem::Maybe(Cls::Ch('\u{0e30}')), Elem::FinalCluster],
        vec![Elem::One(Cls::Rng('ก', 'ฮ')), Elem::One(Cls::Rng('\u{0e36}', '\u{0e37}')), Elem::Maybe(Cls::Rng('\u{0e48}', '\u{0e4b}')), Elem::One(Cls::Rng('ก', 'ฮ')), Elem::FinalCluster],
        vec![Elem::One(Cls::Rng('ก', 'ฮ')), Elem::One(Cls::Rng('\u{0e30}', '\u{0e39}')), Elem::Maybe(Cls::Rng('\u{0e48}', '\u{0e4b}')), Elem::FinalCluster],
        vec![Elem::One(Cls::Rng('ก', 'ฮ')), Elem::One(Cls::VowelIUU), Elem::One(Cls::Ch('\u{0e4c}'))],
        vec![Elem::One(Cls::Rng('ก', 'ฮ')), Elem::One(Cls::Ch('ร')), Elem::One(Cls::Ch('ร')), Elem::One(Cls::Rng('ก', 'ฮ')), Elem::One(Cls::Ch('\u{0e4c}'))],
        vec![Elem::One(Cls::Rng('ก', 'ฮ')), Elem::One(Cls::Ch('\u{0e47}'))],
        vec![Elem::One(Cls::Rng('ก', 'ฮ')), Elem::Maybe(Cls::Rng('\u{0e48}', '\u{0e4b}')), Elem::Maybe(Cls::VowelAAAm), Elem::FinalCluster],
        vec![Elem::One(Cls::Ch('\u{0e41}')), Elem::One(Cls::Rng('ก', 'ฮ')), Elem::One(Cls::Ch('\u{0e47}')), Elem::One(Cls::Rng('ก', 'ฮ')), Elem::FinalCluster],
        vec![Elem::One(Cls::Ch('\u{0e41}')), Elem::One(Cls::Rng('ก', 'ฮ')), Elem::One(Cls::Rng('ก', 'ฮ')), Elem::One(Cls::Ch('\u{0e4c}')), Elem::FinalCluster],
        vec![Elem::One(Cls::Ch('\u{0e41}')), Elem::One(Cls::Rng('ก', 'ฮ')), Elem::Maybe(Cls::Rng('\u{0e48}', '\u{0e4b}')), Elem::One(Cls::Ch('\u{0e30}')), Elem::FinalCluster],
        vec![Elem::One(Cls::Ch('\u{0e41}')), Elem::One(Cls::Rng('ก', 'ฮ')), Elem::One(Cls::Rng('ก', 'ฮ')), Elem::One(Cls::Ch('\u{0e47}')), Elem::One(Cls::Rng('ก', 'ฮ')), Elem::FinalCluster],
        vec![Elem::One(Cls::Ch('\u{0e41}')), Elem::One(Cls::Rng('ก', 'ฮ')), Elem::One(Cls::Rng('ก', 'ฮ')), Elem::One(Cls::Rng('ก', 'ฮ')), Elem::One(Cls::Ch('\u{0e4c}')), Elem::FinalCluster],
        vec![Elem::One(Cls::Ch('\u{0e42}')), Elem::One(Cls::Rng('ก', 'ฮ')), Elem::Maybe(Cls::Rng('\u{0e48}', '\u{0e4b}')), Elem::One(Cls::Ch('\u{0e30}')), Elem::FinalCluster],
        vec![Elem::One(Cls::Rng('\u{0e40}', '\u{0e44}')), Elem::One(Cls::Rng('ก', 'ฮ')), Elem::Maybe(Cls::Rng('\u{0e48}', '\u{0e4b}')), Elem::FinalCluster],
        vec![Elem::One(Cls::Ch('ก')), Elem::One(Cls::Ch('\u{0e47}'))],
        vec![Elem::One(Cls::Ch('อ')), Elem::One(Cls::Ch('\u{0e36}'))],
        vec![Elem::One(Cls::Ch('ห')), Elem::One(Cls::Ch('\u{0e36}'))],
    ];
    assert(r@[0]@ =~= tcc_patterns()[0]);
    assert(r@[1]@ =~= tcc_patterns()[1]);
    assert(r@[2]@ =~= tcc_patterns()[2]);
    assert(r@[3]@ =~= tcc_patterns()[3]);
    assert(r@[4]@ =~= tcc_patterns()[4]);
    assert(r@[5]@ =~= tcc_patterns()[5]);
    assert(r@[6]@ =~= tcc_patterns()[6]);
    assert(r@[7]@ =~= tcc_patterns()[7]);
    assert(r@[8]@ =~= tcc_patterns()[8]);
    assert(r@[9]@ =~= tcc_patterns()[9]);
    assert(r@[10]@ =~= tcc_patterns()[10]);
    assert(r@[11]@ =~= tcc_patterns()[11]);
    assert(r@[12]@ =~= tcc_patterns()[12]);
    assert(r@[13]@ =~= tcc_patterns()[13]);
    assert(r@[14]@ =~= tcc_patterns()[14]);
    assert(r@[15]@ =~= tcc_patterns()[15]);
    assert(r@[16]@ =~= tcc_patterns()[16]);
    assert(r@[17]@ =~= tcc_patterns()[17]);
    assert(r@[18]@ =~= tcc_patterns()[18]);
    assert(r@[19]@ =~= tcc_patterns()[19]);
    assert(r@[20]@ =~= tcc_patterns()[20]);
    assert(r@[21]@ =~= tcc_patterns()[21]);
    assert(r@[22]@ =~= tcc_patterns()[22]);
    assert(r@[23]@ =~= tcc_patterns()[23]);
    assert(r@[24]@ =~= tcc_patterns()[24]);
    assert(r@[25]@ =~= tcc_patterns()[25]);
    assert(r@[26]@ =~= tcc_patterns()[26]);
    assert(r@[27]@ =~= tcc_patterns()[27]);
    assert(r@[28]@ =~= tcc_patterns()[28]);
    assert(r@[29]@ =~= tcc_patterns()[29]);
    assert(patterns_view(r@) =~= tcc_patterns());
    r
}

/// Every pattern starts with a required character.
pub open spec fn starts_required(ps: Seq<Seq<Elem>>) -> bool {
    forall|a: int| 0 <= a < ps.len() ==> (#[trigger] ps[a]).len() > 0 && ps[a][0] is One
}

proof fn lemma_pattern_len_bounds(p: Seq<Elem>, j: int, s: Seq<char>, i: int)
    requires
        0 <= i <= s.len(),
    ensures
        pattern_len(p, j, s, i) matches Some(k) ==> i + k <= s.len(),
    decreases p.len() - j,
{
    if 0 <= j < p.len() {
        match elem_len(p[j], s, i) {
            None => {},
            Some(k) => {
                assert(i + k <= s.len());
                lemma_pattern_len_bounds(p, j + 1, s, i + k);
            },
        }
    }
}

proof fn lemma_first_pattern_len(ps: Seq<Seq<Elem>>, a: int, s: Seq<char>, i: int)
    requires
        0 <= i <= s.len(),
        0 <= a,
        starts_required(ps),
    ensures
        first_pattern_len(ps, a, s, i) matches Some(k) ==> 1 <= k && i + k <= s.len(),
    decreases ps.len() - a,
{
    if a < ps.len() {
        lemma_pattern_len_bounds(ps[a], 0, s, i);
        match pattern_len(ps[a], 0, s, i) {
            Some(k) => {
                let e = ps[a][0];
                assert(e is One);
                assert(elem_len(e, s, i) == Some(1nat));
            },
            None => {
                lemma_first_pattern_len(ps, a + 1, s, i);
            },
        }
    }
}

/// Every cluster is at least one character long and lies within the text.
pub proof fn lemma_tcc_unit_bounds(s: Seq<char>, i: int)
    requires
        0 <= i < s.len(),
    ensures
        1 <= tcc_unit(s, i),
        i + tcc_unit(s, i) <= s.len(),
{
    assert(starts_required(tcc_patterns()));
    lemma_first_pattern_len(tcc_patterns(), 0, s, i);
}

fn has_at_exec(k: Cls, s: &Vec<char>, i: usize) -> (r: bool)
    ensures
        r == has_at(k, s@, i as int),
{
    i < s.len() && cls_test(k, s[i])
}

fn final_cluster(s: &Vec<char>, i: usize) -> (r: usize)
    requires
        i <= s@.len(),
    ensures
        r == final_cluster_len(s@, i as int),
{
    let _n = s.len();
    if has_at_exec(Cls::Rng('ก', 'ฮ'), s, i) {
        let mut p = i + 1;
        if has_at_exec(Cls::Rng('ก', 'ฮ'), s, p) {
            p = p + 1;
        }
        if has_at_exec(Cls::VowelIUU, s, p) {
            p = p + 1;
        }
        if has_at_exec(Cls::Ch('\u{0e4c}'), s, p) {
            p + 1 - i
        } else {
            0
        }
    } else {
        0
    }
}

fn elem_length(e: Elem, s: &Vec<char>, i: usize) -> (r: Option<usize>)
    requires
        i <= s@.len(),
    ensures
        r matches Some(k) ==> elem_len(e, s@, i as int) == Some(k as nat),
        r is None ==> elem_len(e, s@, i as int) is None,
{
    let _n = s.len();
    match e {
        Elem::One(k) => if has_at_exec(k, s, i) {
            Some(1)
        } else {
            None
        },
        Elem::Maybe(k) => if has_at_exec(k, s, i) {
            Some(1)
        } else {
            Some(0)
        },
        Elem::ToneConsonant => {
            if has_at_exec(Cls::Rng('\u{0e48}', '\u{0e4b}'), s, i) && has_at_exec(
                Cls::Rng('ก', 'ฮ'),
                s,
                i + 1,
            ) {
                Some(2)
            } else {
                Some(0)
            }
        },
        Elem::FinalCluster => Some(final_cluster(s, i)),
    }
}

fn pattern_length(p: &Vec<Elem>, s: &Vec<char>, i: usize) -> (r: Option<usize>)
    requires
        i <= s@.len(),
    ensures
        r matches Some(k) ==> pattern_len(p@, 0, s@, i as int) == Some(k as nat),
        r is None ==> pattern_len(p@, 0, s@, i as int) is None,
{
    let n = s.len();
    let mut j: usize = 0;
    let mut pos: usize = i;
    while j < p.len()
        invariant
            n == s@.len(),
            j <= p@.len(),
            i <= pos <= s@.len(),
            pattern_len(p@, 0, s@, i as int) == match pattern_len(p@, j as int, s@, pos as int) {
                Some(m) => Some((pos - i + m) as nat),
                None => None::<nat>,
            },
        decreases p.len() - j,
    {
        match elem_length(p[j], s, pos) {
            None => {
                return None;
            },
            Some(k) => {
                assert(pos + k <= s@.len());
                pos = pos + k;
                j = j + 1;
            },
        }
    }
    Some(pos - i)
}

/// The length of the cluster at `i`, by the patterns `ps`.
pub fn tcc_match_at(ps: &Vec<Vec<Elem>>, s: &Vec<char>, i: usize) -> (r: Option<usize>)
    requires
        patterns_view(ps@) == tcc_patterns(),
        i <= s@.len(),
    ensures
        r matches Some(k) ==> tcc_match(s@, i as int) == Some(k as nat),
        r is None ==> tcc_match(s@, i as int) is None,
{
    let mut a: usize = 0;
    while a < ps.len()
        invariant
            a <= ps@.len(),
            patterns_view(ps@) == tcc_patterns(),
            i <= s@.len(),
            tcc_match(s@, i as int) == first_pattern_len(tcc_patterns(), a as int, s@, i as int),
        decreases ps.len() - a,
    {
        assert(patterns_view(ps@)[a as int] == ps@[a as int]@);
        match pattern_length(&ps[a], s, i) {
            Some(k) => {
                return Some(k);
            },
            None => {},
        }
        a = a + 1;
    }
    None
}

/// The length of the unit that the cluster tokenizer takes at `i`.
pub fn tcc_unit_at(ps: &Vec<Vec<Elem>>, s: &Vec<char>, i: usize) -> (r: usize)
    requires
        patterns_view(ps@) == tcc_patterns(),
        i < s@.len(),
    ensures
        r == tcc_unit(s@, i as int),
        1 <= r,
        i + r <= s@.len(),
{
    proof {
        lemma_tcc_unit_bounds(s@, i as int);
    }
    match tcc_match_at(ps, s, i) {
        Some(k) => k,
        None => 1,
    }
}

/// Whether class `k` holds no lead vowel เ..ไ.
pub open spec fn no_lead_vowel(k: Cls) -> bool {
    match k {
        Cls::Ch(x) => !lead_vowel(x),
        Cls::Rng(lo, hi) => hi < '\u{0e40}' || '\u{0e44}' < lo,
        _ => false,
    }
}

/// Whether pattern `p` starts with a required character that is no lead vowel.
pub open spec fn starts_without_lead(p: Seq<Elem>) -> bool {
    p.len() > 0 && match p[0] {
        Elem::One(k) => no_lead_vowel(k),
        _ => false,
    }
}

/// Every pattern either cannot start at a lead vowel, or goes on with a
/// required consonant after its first character.
pub open spec fn lead_takes_consonant(ps: Seq<Seq<Elem>>) -> bool {
    forall|a: int|
        0 <= a < ps.len() ==> {
            ||| starts_without_lead(#[trigger] ps[a])
            ||| ps[a].len() >= 2 && ps[a][0] is One && ps[a][1] == Elem::One(cons_cls())
        }
}

proof fn lemma_optional_tail(p: Seq<Elem>, j: int, s: Seq<char>, i: int)
    requires
        0 <= j,
        forall|x: int| j <= x < p.len() ==> !(#[trigger] p[x] is One),
    ensures
        pattern_len(p, j, s, i) is Some,
    decreases p.len() - j,
{
    if j < p.len() {
        let k = elem_len(p[j], s, i)->Some_0;
        lemma_optional_tail(p, j + 1, s, i + k);
    }
}

proof fn lemma_lead_first_len(ps: Seq<Seq<Elem>>, a: int, s: Seq<char>, i: int)
    requires
        0 <= a,
        0 <= i < s.len(),
        lead_vowel(s[i]),
        lead_takes_consonant(ps),
    ensures
        first_pattern_len(ps, a, s, i) matches Some(k) ==> k >= 2,
    decreases ps.len() - a,
{
    if a < ps.len() {
        let p = ps[a];
        if starts_without_lead(p) {
            match p[0] {
                Elem::One(k) => {
                    assert(!cls_has(k, s[i]));
                },
                _ => {},
            }
            assert(pattern_len(p, 0, s, i) is None);
            lemma_lead_first_len(ps, a + 1, s, i);
        } else {
            assert(p.len() >= 2 && p[0] is One && p[1] == Elem::One(cons_cls()));
            let rest = pattern_len(p, 1, s, i + 1);
            assert(rest matches Some(m) ==> m >= 1);
            match pattern_len(p, 0, s, i) {
                Some(k) => {},
                None => {
                    lemma_lead_first_len(ps, a + 1, s, i);
                },
            }
        }
    }
}

proof fn lemma_first_some(ps: Seq<Seq<Elem>>, a: int, b: int, s: Seq<char>, i: int)
    requires
        0 <= a <= b < ps.len(),
        pattern_len(ps[b], 0, s, i) is Some,
    ensures
        first_pattern_len(ps, a, s, i) is Some,
    decreases b - a,
{
    if a < b && pattern_len(ps[a], 0, s, i) is None {
        lemma_first_some(ps, a + 1, b, s, i);
    }
}

/// A lead vowel เ..ไ followed by a consonant ก..ฮ never stands alone: the
/// cluster that starts at the lead vowel takes at least both.
pub proof fn lemma_lead_vowel_cluster(s: Seq<char>, i: int)
    requires
        0 <= i,
        i + 1 < s.len(),
        lead_vowel(s[i]),
        consonant_range(s[i + 1]),
    ensures
        tcc_unit(s, i) >= 2,
{
    let ps = tcc_patterns();
    assert(lead_takes_consonant(ps));
    lemma_lead_first_len(ps, 0, s, i);
    let p = ps[26];
    assert(p == seq![Elem::One(Cls::Rng('\u{0e40}', '\u{0e44}')), Elem::One(Cls::Rng('ก', 'ฮ')), Elem::Maybe(Cls::Rng('\u{0e48}', '\u{0e4b}')), Elem::FinalCluster]);
    lemma_optional_tail(p, 2, s, i + 2);
    assert(pattern_len(p, 1, s, i + 1) is Some);
    assert(pattern_len(p, 0, s, i) is Some);
    lemma_first_some(ps, 0, 26, s, i);
}

/// Whether pattern `p` cannot start at character `c`.
pub open spec fn cannot_start(p: Seq<Elem>, c: char) -> bool {
    p.len() > 0 && match p[0] {
        Elem::One(k) => !cls_has(k, c),
        _ => false,
    }
}

/// Whether pattern `p` takes at least two characters wherever it matches.
pub open spec fn takes_two(p: Seq<Elem>) -> bool {
    p.len() >= 2 && p[0] is One && p[1] is One
}

proof fn lemma_first_takes_two(ps: Seq<Seq<Elem>>, a: int, b: int, s: Seq<char>, i: int)
    requires
        0 <= a <= b < ps.len(),
        0 <= i < s.len(),
        forall|x: int| a <= x < b ==> cannot_start(#[trigger] ps[x], s[i]) || takes_two(ps[x]),
        takes_two(ps[b]),
        pattern_len(ps[b], 0, s, i) is Some,
    ensures
        first_pattern_len(ps, a, s, i) matches Some(k) && k >= 2,
    decreases b - a,
{
    let p = ps[a];
    if cannot_start(p, s[i]) {
        assert(pattern_len(p, 0, s, i) is None);
        lemma_first_takes_two(ps, a + 1, b, s, i);
    } else {
        let rest = pattern_len(p, 1, s, i + 1);
        assert(rest matches Some(m) ==> m >= 1);
        if pattern_len(p, 0, s, i) is None {
            lemma_first_takes_two(ps, a + 1, b, s, i);
        }
    }
}

/// A consonant ก..ฮ followed by a vowel sign ะ..ู never stands alone: the
/// cluster that starts at the consonant takes at least both.
pub proof fn lemma_consonant_vowel_cluster(s: Seq<char>, i: int)
    requires
        0 <= i,
        i + 1 < s.len(),
        consonant_range(s[i]),
        '\u{0e30}' <= s[i + 1] <= '\u{0e39}',
    ensures
        tcc_unit(s, i) >= 2,
{
    let ps = tcc_patterns();
    let c = s[i];
    assert forall|x: int| 0 <= x < 15 implies cannot_start(#[trigger] ps[x], c) || takes_two(
        ps[x],
    ) by {
        assert(x == 0 || x == 1 || x == 2 || x == 3 || x == 4 || x == 5 || x == 6 || x == 7 || x
            == 8 || x == 9 || x == 10 || x == 11 || x == 12 || x == 13 || x == 14);
    }
    let p = ps[15];
    assert(p == seq![Elem::One(Cls::Rng('ก', 'ฮ')), Elem::One(Cls::Rng('\u{0e30}', '\u{0e39}')), Elem::Maybe(Cls::Rng('\u{0e48}', '\u{0e4b}')), Elem::FinalCluster]);
    lemma_optional_tail(p, 2, s, i + 2);
    assert(pattern_len(p, 1, s, i + 1) is Some);
    assert(pattern_len(p, 0, s, i) is Some);
    lemma_first_takes_two(ps, 0, 15, s, i);
}

} // verus!
