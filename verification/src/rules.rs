//! The rewriting rules of the library, each as a specification and as
//! executable data that provably equals it.
use vstd::prelude::*;
use crate::rewrite::{Alt, AltSpec, Cls, Out, Rule, apply_rule, rewrite, rule_wf};

verus! {

/// รร before a lead vowel reads ัน.
pub open spec fn u83_rule_1() -> Seq<AltSpec> {
    seq![
        AltSpec {
            pat: seq![Cls::Ch('ร'), Cls::Ch('ร'), Cls::Rng('\u{0e40}', '\u{0e44}')],
            out: seq![Out::Lit('\u{0e31}'), Out::Lit('น'), Out::Cap(2)],
        },
    ]
}

/// Builds the rule `u83_rule_1`.
pub fn make_u83_rule_1() -> (r: Rule)
    ensures
        r@ == u83_rule_1(),
        rule_wf(r@),
{
    let r = Rule {
        alts: vec![
            Alt {
                pat: vec![Cls::Ch('ร'), Cls::Ch('ร'), Cls::Rng('\u{0e40}', '\u{0e44}')],
                out: vec![Out::Lit('\u{0e31}'), Out::Lit('น'), Out::Cap(2)],
            },
        ],
    };
    assert(r@[0].pat =~= u83_rule_1()[0].pat);
    assert(r@[0].out =~= u83_rule_1()[0].out);
    assert(r@ =~= u83_rule_1());
    r
}

/// รร between consonants reads ั.
pub open spec fn u83_rule_2() -> Seq<AltSpec> {
    seq![
        AltSpec {
            pat: seq![Cls::Ch('ร'), Cls::Ch('ร'), Cls::Rng('ก', 'ฮ'), Cls::ConsOrLead],
            out: seq![Out::Lit('\u{0e31}'), Out::Cap(2), Out::Cap(3)],
        },
    ]
}

/// Builds the rule `u83_rule_2`.
pub fn make_u83_rule_2() -> (r: Rule)
    ensures
        r@ == u83_rule_2(),
        rule_wf(r@),
{
    let r = Rule {
        alts: vec![
            Alt {
                pat: vec![Cls::Ch('ร'), Cls::Ch('ร'), Cls::Rng('ก', 'ฮ'), Cls::ConsOrLead],
                out: vec![Out::Lit('\u{0e31}'), Out::Cap(2), Out::Cap(3)],
            },
        ],
    };
    assert(r@[0].pat =~= u83_rule_2()[0].pat);
    assert(r@[0].out =~= u83_rule_2()[0].out);
    assert(r@ =~= u83_rule_2());
    r
}

/// รร before a consonant and a vowel or mark reads ัน.
pub open spec fn u83_rule_3() -> Seq<AltSpec> {
    seq![
        AltSpec {
            pat: seq![Cls::Ch('ร'), Cls::Ch('ร'), Cls::Rng('ก', 'ฮ'), Cls::VowelOrMark],
            out: seq![Out::Lit('\u{0e31}'), Out::Lit('น'), Out::Cap(2), Out::Cap(3)],
        },
    ]
}

/// Builds the rule `u83_rule_3`.
pub fn make_u83_rule_3() -> (r: Rule)
    ensures
        r@ == u83_rule_3(),
        rule_wf(r@),
{
    let r = Rule {
        alts: vec![
            Alt {
                pat: vec![Cls::Ch('ร'), Cls::Ch('ร'), Cls::Rng('ก', 'ฮ'), Cls::VowelOrMark],
                out: vec![Out::Lit('\u{0e31}'), Out::Lit('น'), Out::Cap(2), Out::Cap(3)],
            },
        ],
    };
    assert(r@[0].pat =~= u83_rule_3()[0].pat);
    assert(r@[0].out =~= u83_rule_3()[0].out);
    assert(r@ =~= u83_rule_3());
    r
}

/// Any other รร reads ัน.
pub open spec fn u83_rule_4() -> Seq<AltSpec> {
    seq![
        AltSpec {
            pat: seq![Cls::Ch('ร'), Cls::Ch('ร')],
            out: seq![Out::Lit('\u{0e31}'), Out::Lit('น')],
        },
    ]
}

/// Builds the rule `u83_rule_4`.
pub fn make_u83_rule_4() -> (r: Rule)
    ensures
        r@ == u83_rule_4(),
        rule_wf(r@),
{
    let r = Rule {
        alts: vec![
            Alt {
                pat: vec![Cls::Ch('ร'), Cls::Ch('ร')],
                out: vec![Out::Lit('\u{0e31}'), Out::Lit('น')],
            },
        ],
    };
    assert(r@[0].pat =~= u83_rule_4()[0].pat);
    assert(r@[0].out =~= u83_rule_4()[0].out);
    assert(r@ =~= u83_rule_4());
    r
}

/// ไ is dropped before a consonant and ย.
pub open spec fn u83_rule_5() -> Seq<AltSpec> {
    seq![
        AltSpec {
            pat: seq![Cls::Ch('\u{0e44}'), Cls::Consonant, Cls::Ch('ย')],
            out: seq![Out::Cap(1), Out::Cap(2)],
        },
    ]
}

/// Builds the rule `u83_rule_5`.
pub fn make_u83_rule_5() -> (r: Rule)
    ensures
        r@ == u83_rule_5(),
        rule_wf(r@),
{
    let r = Rule {
        alts: vec![
            Alt {
                pat: vec![Cls::Ch('\u{0e44}'), Cls::Consonant, Cls::Ch('ย')],
                out: vec![Out::Cap(1), Out::Cap(2)],
            },
        ],
    };
    assert(r@[0].pat =~= u83_rule_5()[0].pat);
    assert(r@[0].out =~= u83_rule_5()[0].out);
    assert(r@ =~= u83_rule_5());
    r
}

/// ใ or ไ before a consonant becomes the consonant and ย.
pub open spec fn u83_rule_6() -> Seq<AltSpec> {
    seq![
        AltSpec {
            pat: seq![Cls::Rng('\u{0e43}', '\u{0e44}'), Cls::Consonant],
            out: seq![Out::Cap(1), Out::Lit('ย')],
        },
    ]
}

/// Builds the rule `u83_rule_6`.
pub fn make_u83_rule_6() -> (r: Rule)
    ensures
        r@ == u83_rule_6(),
        rule_wf(r@),
{
    let r = Rule {
        alts: vec![
            Alt {
                pat: vec![Cls::Rng('\u{0e43}', '\u{0e44}'), Cls::Consonant],
                out: vec![Out::Cap(1), Out::Lit('ย')],
            },
        ],
    };
    assert(r@[0].pat =~= u83_rule_6()[0].pat);
    assert(r@[0].out =~= u83_rule_6()[0].out);
    assert(r@ =~= u83_rule_6());
    r
}

/// ำ before ม and a vowel becomes ม.
pub open spec fn u83_rule_7() -> Seq<AltSpec> {
    seq![
        AltSpec {
            pat: seq![Cls::Ch('\u{0e33}'), Cls::Ch('ม'), Cls::Rng('\u{0e30}', '\u{0e39}')],
            out: seq![Out::Lit('ม'), Out::Cap(1), Out::Cap(2)],
        },
    ]
}

/// Builds the rule `u83_rule_7`.
pub fn make_u83_rule_7() -> (r: Rule)
    ensures
        r@ == u83_rule_7(),
        rule_wf(r@),
{
    let r = Rule {
        alts: vec![
            Alt {
                pat: vec![Cls::Ch('\u{0e33}'), Cls::Ch('ม'), Cls::Rng('\u{0e30}', '\u{0e39}')],
                out: vec![Out::Lit('ม'), Out::Cap(1), Out::Cap(2)],
            },
        ],
    };
    assert(r@[0].pat =~= u83_rule_7()[0].pat);
    assert(r@[0].out =~= u83_rule_7()[0].out);
    assert(r@ =~= u83_rule_7());
    r
}

/// ำม becomes ม.
pub open spec fn u83_rule_8() -> Seq<AltSpec> {
    seq![
        AltSpec {
            pat: seq![Cls::Ch('\u{0e33}'), Cls::Ch('ม')],
            out: seq![Out::Lit('ม')],
        },
    ]
}

/// Builds the rule `u83_rule_8`.
pub fn make_u83_rule_8() -> (r: Rule)
    ensures
        r@ == u83_rule_8(),
        rule_wf(r@),
{
    let r = Rule {
        alts: vec![
            Alt {
                pat: vec![Cls::Ch('\u{0e33}'), Cls::Ch('ม')],
                out: vec![Out::Lit('ม')],
            },
        ],
    };
    assert(r@[0].pat =~= u83_rule_8()[0].pat);
    assert(r@[0].out =~= u83_rule_8()[0].out);
    assert(r@ =~= u83_rule_8());
    r
}

/// Any other ำ becomes ม.
pub open spec fn u83_rule_9() -> Seq<AltSpec> {
    seq![
        AltSpec {
            pat: seq![Cls::Ch('\u{0e33}')],
            out: seq![Out::Lit('ม')],
        },
    ]
}

/// Builds the rule `u83_rule_9`.
pub fn make_u83_rule_9() -> (r: Rule)
    ensures
        r@ == u83_rule_9(),
        rule_wf(r@),
{
    let r = Rule {
        alts: vec![
            Alt {
                pat: vec![Cls::Ch('\u{0e33}')],
                out: vec![Out::Lit('ม')],
            },
        ],
    };
    assert(r@[0].pat =~= u83_rule_9()[0].pat);
    assert(r@[0].out =~= u83_rule_9()[0].out);
    assert(r@ =~= u83_rule_9());
    r
}

/// Silent letters under the thanthakhat are dropped.
pub open spec fn u83_rule_10() -> Seq<AltSpec> {
    seq![
        AltSpec {
            pat: seq![Cls::Ch('จ'), Cls::Ch('น'), Cls::Ch('\u{0e4c}')],
            out: seq![],
        },
        AltSpec {
            pat: seq![Cls::Ch('ม'), Cls::Ch('ณ'), Cls::Ch('\u{0e4c}')],
            out: seq![],
        },
        AltSpec {
            pat: seq![Cls::Ch('ณ'), Cls::Ch('ฑ'), Cls::Ch('\u{0e4c}')],
            out: seq![],
        },
        AltSpec {
            pat: seq![Cls::Ch('ท'), Cls::Ch('ร'), Cls::Ch('\u{0e4c}')],
            out: seq![],
        },
        AltSpec {
            pat: seq![Cls::Ch('ต'), Cls::Ch('ร'), Cls::Ch('\u{0e4c}')],
            out: seq![],
        },
        AltSpec {
            pat: seq![Cls::Consonant, Cls::Ch('\u{0e4c}')],
            out: seq![],
        },
        AltSpec {
            pat: seq![Cls::Consonant, Cls::Rng('\u{0e30}', '\u{0e39}'), Cls::Ch('\u{0e4c}')],
            out: seq![],
        },
    ]
}

/// Builds the rule `u83_rule_10`.
pub fn make_u83_rule_10() -> (r: Rule)
    ensures
        r@ == u83_rule_10(),
        rule_wf(r@),
{
    let r = Rule {
        alts: vec![
            Alt {
                pat: vec![Cls::Ch('จ'), Cls::Ch('น'), Cls::Ch('\u{0e4c}')],
                out: vec![],
            },
            Alt {
                pat: vec![Cls::Ch('ม'), Cls::Ch('ณ'), Cls::Ch('\u{0e4c}')],
                out: vec![],
            },
            Alt {
                pat: vec![Cls::Ch('ณ'), Cls::Ch('ฑ'), Cls::Ch('\u{0e4c}')],
                out: vec![],
            },
            Alt {
                pat: vec![Cls::Ch('ท'), Cls::Ch('ร'), Cls::Ch('\u{0e4c}')],
                out: vec![],
            },
            Alt {
                pat: vec![Cls::Ch('ต'), Cls::Ch('ร'), Cls::Ch('\u{0e4c}')],
                out: vec![],
            },
            Alt {
                pat: vec![Cls::Consonant, Cls::Ch('\u{0e4c}')],
                out: vec![],
            },
            Alt {
                pat: vec![Cls::Consonant, Cls::Rng('\u{0e30}', '\u{0e39}'), Cls::Ch('\u{0e4c}')],
                out: vec![],
            },
        ],
    };
    assert(r@[0].pat =~= u83_rule_10()[0].pat);
    assert(r@[0].out =~= u83_rule_10()[0].out);
    assert(r@[1].pat =~= u83_rule_10()[1].pat);
    assert(r@[1].out =~= u83_rule_10()[1].out);
    assert(r@[2].pat =~= u83_rule_10()[2].pat);
    assert(r@[2].out =~= u83_rule_10()[2].out);
    assert(r@[3].pat =~= u83_rule_10()[3].pat);
    assert(r@[3].out =~= u83_rule_10()[3].out);
    assert(r@[4].pat =~= u83_rule_10()[4].pat);
    assert(r@[4].out =~= u83_rule_10()[4].out);
    assert(r@[5].pat =~= u83_rule_10()[5].pat);
    assert(r@[5].out =~= u83_rule_10()[5].out);
    assert(r@[6].pat =~= u83_rule_10()[6].pat);
    assert(r@[6].out =~= u83_rule_10()[6].out);
    assert(r@ =~= u83_rule_10());
    r
}

/// Vowel signs and marks U+0E30..U+0E4C are dropped.
pub open spec fn u83_rule_11() -> Seq<AltSpec> {
    seq![
        AltSpec {
            pat: seq![Cls::Rng('\u{0e30}', '\u{0e4c}')],
            out: seq![],
        },
    ]
}

/// Builds the rule `u83_rule_11`.
pub fn make_u83_rule_11() -> (r: Rule)
    ensures
        r@ == u83_rule_11(),
        rule_wf(r@),
{
    let r = Rule {
        alts: vec![
            Alt {
                pat: vec![Cls::Rng('\u{0e30}', '\u{0e4c}')],
                out: vec![],
            },
        ],
    };
    assert(r@[0].pat =~= u83_rule_11()[0].pat);
    assert(r@[0].out =~= u83_rule_11()[0].out);
    assert(r@ =~= u83_rule_11());
    r
}

/// Tonemarks U+0E48..U+0E4B are dropped.
pub open spec fn tonemark_rule() -> Seq<AltSpec> {
    seq![
        AltSpec {
            pat: seq![Cls::Rng('\u{0e48}', '\u{0e4b}')],
            out: seq![],
        },
    ]
}

/// Builds the rule `tonemark_rule`.
pub fn make_tonemark_rule() -> (r: Rule)
    ensures
        r@ == tonemark_rule(),
        rule_wf(r@),
{
    let r = Rule {
        alts: vec![
            Alt {
                pat: vec![Cls::Rng('\u{0e48}', '\u{0e4b}')],
                out: vec![],
            },
        ],
    };
    assert(r@[0].pat =~= tonemark_rule()[0].pat);
    assert(r@[0].out =~= tonemark_rule()[0].out);
    assert(r@ =~= tonemark_rule());
    r
}

/// Silent letters under the thanthakhat are dropped.
pub open spec fn lk82_karant_rule() -> Seq<AltSpec> {
    seq![
        AltSpec {
            pat: seq![Cls::Ch('จ'), Cls::Ch('น'), Cls::Ch('\u{0e4c}')],
            out: seq![],
        },
        AltSpec {
            pat: seq![Cls::Ch('ม'), Cls::Ch('ณ'), Cls::Ch('\u{0e4c}')],
            out: seq![],
        },
        AltSpec {
            pat: seq![Cls::Ch('ณ'), Cls::Ch('ฑ'), Cls::Ch('\u{0e4c}')],
            out: seq![],
        },
        AltSpec {
            pat: seq![Cls::Ch('ท'), Cls::Ch('ร'), Cls::Ch('\u{0e4c}')],
            out: seq![],
        },
        AltSpec {
            pat: seq![Cls::Ch('ต'), Cls::Ch('ร'), Cls::Ch('\u{0e4c}')],
            out: seq![],
        },
        AltSpec {
            pat: seq![Cls::Rng('ก', 'ฮ'), Cls::Ch('\u{0e4c}')],
            out: seq![],
        },
        AltSpec {
            pat: seq![Cls::Rng('ก', 'ฮ'), Cls::Rng('\u{0e30}', '\u{0e39}'), Cls::Ch('\u{0e4c}')],
            out: seq![],
        },
    ]
}

/// Builds the rule `lk82_karant_rule`.
pub fn make_lk82_karant_rule() -> (r: Rule)
    ensures
        r@ == lk82_karant_rule(),
        rule_wf(r@),
{
    let r = Rule {
        alts: vec![
            Alt {
                pat: vec![Cls::Ch('จ'), Cls::Ch('น'), Cls::Ch('\u{0e4c}')],
                out: vec![],
            },
            Alt {
                pat: vec![Cls::Ch('ม'), Cls::Ch('ณ'), Cls::Ch('\u{0e4c}')],
                out: vec![],
            },
            Alt {
                pat: vec![Cls::Ch('ณ'), Cls::Ch('ฑ'), Cls::Ch('\u{0e4c}')],
                out: vec![],
            },
            Alt {
                pat: vec![Cls::Ch('ท'), Cls::Ch('ร'), Cls::Ch('\u{0e4c}')],
                out: vec![],
            },
            Alt {
                pat: vec![Cls::Ch('ต'), Cls::Ch('ร'), Cls::Ch('\u{0e4c}')],
                out: vec![],
            },
            Alt {
                pat: vec![Cls::Rng('ก', 'ฮ'), Cls::Ch('\u{0e4c}')],
                out: vec![],
            },
            Alt {
                pat: vec![Cls::Rng('ก', 'ฮ'), Cls::Rng('\u{0e30}', '\u{0e39}'), Cls::Ch('\u{0e4c}')],
                out: vec![],
            },
        ],
    };
    assert(r@[0].pat =~= lk82_karant_rule()[0].pat);
    assert(r@[0].out =~= lk82_karant_rule()[0].out);
    assert(r@[1].pat =~= lk82_karant_rule()[1].pat);
    assert(r@[1].out =~= lk82_karant_rule()[1].out);
    assert(r@[2].pat =~= lk82_karant_rule()[2].pat);
    assert(r@[2].out =~= lk82_karant_rule()[2].out);
    assert(r@[3].pat =~= lk82_karant_rule()[3].pat);
    assert(r@[3].out =~= lk82_karant_rule()[3].out);
    assert(r@[4].pat =~= lk82_karant_rule()[4].pat);
    assert(r@[4].out =~= lk82_karant_rule()[4].out);
    assert(r@[5].pat =~= lk82_karant_rule()[5].pat);
    assert(r@[5].out =~= lk82_karant_rule()[5].out);
    assert(r@[6].pat =~= lk82_karant_rule()[6].pat);
    assert(r@[6].out =~= lk82_karant_rule()[6].out);
    assert(r@ =~= lk82_karant_rule());
    r
}

/// The signs ฯ ฺ ๆ ็ ํ are dropped.
pub open spec fn lk82_sign_rule() -> Seq<AltSpec> {
    seq![
        AltSpec {
            pat: seq![Cls::Ch('\u{0e2f}')],
            out: seq![],
        },
        AltSpec {
            pat: seq![Cls::Ch('\u{0e3a}')],
            out: seq![],
        },
        AltSpec {
            pat: seq![Cls::Ch('\u{0e46}')],
            out: seq![],
        },
        AltSpec {
            pat: seq![Cls::Ch('\u{0e47}')],
            out: seq![],
        },
        AltSpec {
            pat: seq![Cls::Ch('\u{0e4d}')],
            out: seq![],
        },
    ]
}

/// Builds the rule `lk82_sign_rule`.
pub fn make_lk82_sign_rule() -> (r: Rule)
    ensures
        r@ == lk82_sign_rule(),
        rule_wf(r@),
{
    let r = Rule {
        alts: vec![
            Alt {
                pat: vec![Cls::Ch('\u{0e2f}')],
                out: vec![],
            },
            Alt {
                pat: vec![Cls::Ch('\u{0e3a}')],
                out: vec![],
            },
            Alt {
                pat: vec![Cls::Ch('\u{0e46}')],
                out: vec![],
            },
            Alt {
                pat: vec![Cls::Ch('\u{0e47}')],
                out: vec![],
            },
            Alt {
                pat: vec![Cls::Ch('\u{0e4d}')],
                out: vec![],
            },
        ],
    };
    assert(r@[0].pat =~= lk82_sign_rule()[0].pat);
    assert(r@[0].out =~= lk82_sign_rule()[0].out);
    assert(r@[1].pat =~= lk82_sign_rule()[1].pat);
    assert(r@[1].out =~= lk82_sign_rule()[1].out);
    assert(r@[2].pat =~= lk82_sign_rule()[2].pat);
    assert(r@[2].out =~= lk82_sign_rule()[2].out);
    assert(r@[3].pat =~= lk82_sign_rule()[3].pat);
    assert(r@[3].out =~= lk82_sign_rule()[3].out);
    assert(r@[4].pat =~= lk82_sign_rule()[4].pat);
    assert(r@[4].out =~= lk82_sign_rule()[4].out);
    assert(r@ =~= lk82_sign_rule());
    r
}

/// Silent letters under the thanthakhat, and the signs ฯ ๆ, the marks U+0E48..U+0E4F and ๚ ๛, are dropped.
pub open spec fn normalize_rule() -> Seq<AltSpec> {
    seq![
        AltSpec {
            pat: seq![Cls::Ch('จ'), Cls::Ch('น'), Cls::Ch('\u{0e4c}')],
            out: seq![],
        },
        AltSpec {
            pat: seq![Cls::Ch('ม'), Cls::Ch('ณ'), Cls::Ch('\u{0e4c}')],
            out: seq![],
        },
        AltSpec {
            pat: seq![Cls::Ch('ณ'), Cls::Ch('ฑ'), Cls::Ch('\u{0e4c}')],
            out: seq![],
        },
        AltSpec {
            pat: seq![Cls::Ch('ท'), Cls::Ch('ร'), Cls::Ch('\u{0e4c}')],
            out: seq![],
        },
        AltSpec {
            pat: seq![Cls::Ch('ต'), Cls::Ch('ร'), Cls::Ch('\u{0e4c}')],
            out: seq![],
        },
        AltSpec {
            pat: seq![Cls::Rng('ก', 'ฮ'), Cls::Ch('\u{0e4c}')],
            out: seq![],
        },
        AltSpec {
            pat: seq![Cls::Rng('ก', 'ฮ'), Cls::Rng('\u{0e30}', '\u{0e39}'), Cls::Ch('\u{0e4c}')],
            out: seq![],
        },
        AltSpec {
            pat: seq![Cls::Ch('\u{0e2f}')],
            out: seq![],
        },
        AltSpec {
            pat: seq![Cls::Ch('\u{0e46}')],
            out: seq![],
        },
        AltSpec {
            pat: seq![Cls::Rng('\u{0e48}', '\u{0e4f}')],
            out: seq![],
        },
        AltSpec {
            pat: seq![Cls::Ch('\u{0e5a}')],
            out: seq![],
        },
        AltSpec {
            pat: seq![Cls::Ch('\u{0e5b}')],
            out: seq![],
        },
    ]
}

/// Builds the rule `normalize_rule`.
pub fn make_normalize_rule() -> (r: Rule)
    ensures
        r@ == normalize_rule(),
        rule_wf(r@),
{
    let r = Rule {
        alts: vec![
            Alt {
                pat: vec![Cls::Ch('จ'), Cls::Ch('น'), Cls::Ch('\u{0e4c}')],
                out: vec![],
            },
            Alt {
                pat: vec![Cls::Ch('ม'), Cls::Ch('ณ'), Cls::Ch('\u{0e4c}')],
                out: vec![],
            },
            Alt {
                pat: vec![Cls::Ch('ณ'), Cls::Ch('ฑ'), Cls::Ch('\u{0e4c}')],
                out: vec![],
            },
            Alt {
                pat: vec![Cls::Ch('ท'), Cls::Ch('ร'), Cls::Ch('\u{0e4c}')],
                out: vec![],
            },
            Alt {
                pat: vec![Cls::Ch('ต'), Cls::Ch('ร'), Cls::Ch('\u{0e4c}')],
                out: vec![],
            },
            Alt {
                pat: vec![Cls::Rng('ก', 'ฮ'), Cls::Ch('\u{0e4c}')],
                out: vec![],
            },
            Alt {
                pat: vec![Cls::Rng('ก', 'ฮ'), Cls::Rng('\u{0e30}', '\u{0e39}'), Cls::Ch('\u{0e4c}')],
                out: vec![],
            },
            Alt {
                pat: vec![Cls::Ch('\u{0e2f}')],
                out: vec![],
            },
            Alt {
                pat: vec![Cls::Ch('\u{0e46}')],
                out: vec![],
            },
            Alt {
                pat: vec![Cls::Rng('\u{0e48}', '\u{0e4f}')],
                out: vec![],
            },
            Alt {
                pat: vec![Cls::Ch('\u{0e5a}')],
                out: vec![],
            },
            Alt {
                pat: vec![Cls::Ch('\u{0e5b}')],
                out: vec![],
            },
        ],
    };
    assert(r@[0].pat =~= normalize_rule()[0].pat);
    assert(r@[0].out =~= normalize_rule()[0].out);
    assert(r@[1].pat =~= normalize_rule()[1].pat);
    assert(r@[1].out =~= normalize_rule()[1].out);
    assert(r@[2].pat =~= normalize_rule()[2].pat);
    assert(r@[2].out =~= normalize_rule()[2].out);
    assert(r@[3].pat =~= normalize_rule()[3].pat);
    assert(r@[3].out =~= normalize_rule()[3].out);
    assert(r@[4].pat =~= normalize_rule()[4].pat);
    assert(r@[4].out =~= normalize_rule()[4].out);
    assert(r@[5].pat =~= normalize_rule()[5].pat);
    assert(r@[5].out =~= normalize_rule()[5].out);
    assert(r@[6].pat =~= normalize_rule()[6].pat);
    assert(r@[6].out =~= normalize_rule()[6].out);
    assert(r@[7].pat =~= normalize_rule()[7].pat);
    assert(r@[7].out =~= normalize_rule()[7].out);
    assert(r@[8].pat =~= normalize_rule()[8].pat);
    assert(r@[8].out =~= normalize_rule()[8].out);
    assert(r@[9].pat =~= normalize_rule()[9].pat);
    assert(r@[9].out =~= normalize_rule()[9].out);
    assert(r@[10].pat =~= normalize_rule()[10].pat);
    assert(r@[10].out =~= normalize_rule()[10].out);
    assert(r@[11].pat =~= normalize_rule()[11].pat);
    assert(r@[11].out =~= normalize_rule()[11].out);
    assert(r@ =~= normalize_rule());
    r
}

/// A lead vowel before a consonant moves after it.
pub open spec fn lead_swap_rule() -> Seq<AltSpec> {
    seq![
        AltSpec {
            pat: seq![Cls::Rng('\u{0e40}', '\u{0e44}'), Cls::Rng('ก', 'ฮ')],
            out: seq![Out::Cap(1), Out::Cap(0)],
        },
    ]
}

/// Builds the rule `lead_swap_rule`.
pub fn make_lead_swap_rule() -> (r: Rule)
    ensures
        r@ == lead_swap_rule(),
        rule_wf(r@),
{
    let r = Rule {
        alts: vec![
            Alt {
                pat: vec![Cls::Rng('\u{0e40}', '\u{0e44}'), Cls::Rng('ก', 'ฮ')],
                out: vec![Out::Cap(1), Out::Cap(0)],
            },
        ],
    };
    assert(r@[0].pat =~= lead_swap_rule()[0].pat);
    assert(r@[0].out =~= lead_swap_rule()[0].out);
    assert(r@ =~= lead_swap_rule());
    r
}

/// Tonemarks, ็ and ์ (U+0E47..U+0E4C) are dropped.
pub open spec fn sort_mark_rule() -> Seq<AltSpec> {
    seq![
        AltSpec {
            pat: seq![Cls::Rng('\u{0e47}', '\u{0e4c}')],
            out: seq![],
        },
    ]
}

/// Builds the rule `sort_mark_rule`.
pub fn make_sort_mark_rule() -> (r: Rule)
    ensures
        r@ == sort_mark_rule(),
        rule_wf(r@),
{
    let r = Rule {
        alts: vec![
            Alt {
                pat: vec![Cls::Rng('\u{0e47}', '\u{0e4c}')],
                out: vec![],
            },
        ],
    };
    assert(r@[0].pat =~= sort_mark_rule()[0].pat);
    assert(r@[0].out =~= sort_mark_rule()[0].out);
    assert(r@ =~= sort_mark_rule());
    r
}

/// Vowel pattern เ-ียว reads as -iao.
pub open spec fn vowel_rule_1() -> Seq<AltSpec> {
    seq![
        AltSpec {
            pat: seq![Cls::Ch('\u{0e40}'), Cls::Rng('ก', 'ฮ'), Cls::Ch('\u{0e35}'), Cls::Ch('ย'), Cls::Ch('ว')],
            out: seq![Out::Cap(1), Out::Lit('i'), Out::Lit('a'), Out::Lit('o')],
        },
    ]
}

/// Builds the rule `vowel_rule_1`.
pub fn make_vowel_rule_1() -> (r: Rule)
    ensures
        r@ == vowel_rule_1(),
        rule_wf(r@),
{
    let r = Rule {
        alts: vec![
            Alt {
                pat: vec![Cls::Ch('\u{0e40}'), Cls::Rng('ก', 'ฮ'), Cls::Ch('\u{0e35}'), Cls::Ch('ย'), Cls::Ch('ว')],
                out: vec![Out::Cap(1), Out::Lit('i'), Out::Lit('a'), Out::Lit('o')],
            },
        ],
    };
    assert(r@[0].pat =~= vowel_rule_1()[0].pat);
    assert(r@[0].out =~= vowel_rule_1()[0].out);
    assert(r@ =~= vowel_rule_1());
    r
}

/// Vowel pattern แ-็ว reads as -aeo.
pub open spec fn vowel_rule_2() -> Seq<AltSpec> {
    seq![
        AltSpec {
            pat: seq![Cls::Ch('\u{0e41}'), Cls::Rng('ก', 'ฮ'), Cls::Ch('\u{0e47}'), Cls::Ch('ว')],
            out: seq![Out::Cap(1), Out::Lit('a'), Out::Lit('e'), Out::Lit('o')],
        },
    ]
}

/// Builds the rule `vowel_rule_2`.
pub fn make_vowel_rule_2() -> (r: Rule)
    ensures
        r@ == vowel_rule_2(),
        rule_wf(r@),
{
    let r = Rule {
        alts: vec![
            Alt {
                pat: vec![Cls::Ch('\u{0e41}'), Cls::Rng('ก', 'ฮ'), Cls::Ch('\u{0e47}'), Cls::Ch('ว')],
                out: vec![Out::Cap(1), Out::Lit('a'), Out::Lit('e'), Out::Lit('o')],
            },
        ],
    };
    assert(r@[0].pat =~= vowel_rule_2()[0].pat);
    assert(r@[0].out =~= vowel_rule_2()[0].out);
    assert(r@ =~= vowel_rule_2());
    r
}

/// Vowel pattern เ-ือย reads as -ueai.
pub open spec fn vowel_rule_3() -> Seq<AltSpec> {
    seq![
        AltSpec {
            pat: seq![Cls::Ch('\u{0e40}'), Cls::Rng('ก', 'ฮ'), Cls::Ch('\u{0e37}'), Cls::Ch('อ'), Cls::Ch('ย')],
            out: seq![Out::Cap(1), Out::Lit('u'), Out::Lit('e'), Out::Lit('a'), Out::Lit('i')],
        },
    ]
}

/// Builds the rule `vowel_rule_3`.
pub fn make_vowel_rule_3() -> (r: Rule)
    ensures
        r@ == vowel_rule_3(),
        rule_wf(r@),
{
    let r = Rule {
        alts: vec![
            Alt {
                pat: vec![Cls::Ch('\u{0e40}'), Cls::Rng('ก', 'ฮ'), Cls::Ch('\u{0e37}'), Cls::Ch('อ'), Cls::Ch('ย')],
                out: vec![Out::Cap(1), Out::Lit('u'), Out::Lit('e'), Out::Lit('a'), Out::Lit('i')],
            },
        ],
    };
    assert(r@[0].pat =~= vowel_rule_3()[0].pat);
    assert(r@[0].out =~= vowel_rule_3()[0].out);
    assert(r@ =~= vowel_rule_3());
    r
}

/// Vowel pattern แ-ว reads as -aeo.
pub open spec fn vowel_rule_4() -> Seq<AltSpec> {
    seq![
        AltSpec {
            pat: seq![Cls::Ch('\u{0e41}'), Cls::Rng('ก', 'ฮ'), Cls::Ch('ว')],
            out: seq![Out::Cap(1), Out::Lit('a'), Out::Lit('e'), Out::Lit('o')],
        },
    ]
}

/// Builds the rule `vowel_rule_4`.
pub fn make_vowel_rule_4() -> (r: Rule)
    ensures
        r@ == vowel_rule_4(),
        rule_wf(r@),
{
    let r = Rule {
        alts: vec![
            Alt {
                pat: vec![Cls::Ch('\u{0e41}'), Cls::Rng('ก', 'ฮ'), Cls::Ch('ว')],
                out: vec![Out::Cap(1), Out::Lit('a'), Out::Lit('e'), Out::Lit('o')],
            },
        ],
    };
    assert(r@[0].pat =~= vowel_rule_4()[0].pat);
    assert(r@[0].out =~= vowel_rule_4()[0].out);
    assert(r@ =~= vowel_rule_4());
    r
}

/// Vowel pattern เ-็ว reads as -eo.
pub open spec fn vowel_rule_5() -> Seq<AltSpec> {
    seq![
        AltSpec {
            pat: seq![Cls::Ch('\u{0e40}'), Cls::Rng('ก', 'ฮ'), Cls::Ch('\u{0e47}'), Cls::Ch('ว')],
            out: seq![Out::Cap(1), Out::Lit('e'), Out::Lit('o')],
        },
    ]
}

/// Builds the rule `vowel_rule_5`.
pub fn make_vowel_rule_5() -> (r: Rule)
    ensures
        r@ == vowel_rule_5(),
        rule_wf(r@),
{
    let r = Rule {
        alts: vec![
            Alt {
                pat: vec![Cls::Ch('\u{0e40}'), Cls::Rng('ก', 'ฮ'), Cls::Ch('\u{0e47}'), Cls::Ch('ว')],
                out: vec![Out::Cap(1), Out::Lit('e'), Out::Lit('o')],
            },
        ],
    };
    assert(r@[0].pat =~= vowel_rule_5()[0].pat);
    assert(r@[0].out =~= vowel_rule_5()[0].out);
    assert(r@ =~= vowel_rule_5());
    r
}

/// Vowel pattern เ-ว reads as -eo.
pub open spec fn vowel_rule_6() -> Seq<AltSpec> {
    seq![
        AltSpec {
            pat: seq![Cls::Ch('\u{0e40}'), Cls::Rng('ก', 'ฮ'), Cls::Ch('ว')],
            out: seq![Out::Cap(1), Out::Lit('e'), Out::Lit('o')],
        },
    ]
}

/// Builds the rule `vowel_rule_6`.
pub fn make_vowel_rule_6() -> (r: Rule)
    ensures
        r@ == vowel_rule_6(),
        rule_wf(r@),
{
    let r = Rule {
        alts: vec![
            Alt {
                pat: vec![Cls::Ch('\u{0e40}'), Cls::Rng('ก', 'ฮ'), Cls::Ch('ว')],
                out: vec![Out::Cap(1), Out::Lit('e'), Out::Lit('o')],
            },
        ],
    };
    assert(r@[0].pat =~= vowel_rule_6()[0].pat);
    assert(r@[0].out =~= vowel_rule_6()[0].out);
    assert(r@ =~= vowel_rule_6());
    r
}

/// Vowel pattern -ิว reads as -io.
pub open spec fn vowel_rule_7() -> Seq<AltSpec> {
    seq![
        AltSpec {
            pat: seq![Cls::Rng('ก', 'ฮ'), Cls::Ch('\u{0e34}'), Cls::Ch('ว')],
            out: seq![Out::Cap(0), Out::Lit('i'), Out::Lit('o')],
        },
    ]
}

/// Builds the rule `vowel_rule_7`.
pub fn make_vowel_rule_7() -> (r: Rule)
    ensures
        r@ == vowel_rule_7(),
        rule_wf(r@),
{
    let r = Rule {
        alts: vec![
            Alt {
                pat: vec![Cls::Rng('ก', 'ฮ'), Cls::Ch('\u{0e34}'), Cls::Ch('ว')],
                out: vec![Out::Cap(0), Out::Lit('i'), Out::Lit('o')],
            },
        ],
    };
    assert(r@[0].pat =~= vowel_rule_7()[0].pat);
    assert(r@[0].out =~= vowel_rule_7()[0].out);
    assert(r@ =~= vowel_rule_7());
    r
}

/// Vowel pattern -วย reads as -uai.
pub open spec fn vowel_rule_8() -> Seq<AltSpec> {
    seq![
        AltSpec {
            pat: seq![Cls::Rng('ก', 'ฮ'), Cls::Ch('ว'), Cls::Ch('ย')],
            out: seq![Out::Cap(0), Out::Lit('u'), Out::Lit('a'), Out::Lit('i')],
        },
    ]
}

/// Builds the rule `vowel_rule_8`.
pub fn make_vowel_rule_8() -> (r: Rule)
    ensures
        r@ == vowel_rule_8(),
        rule_wf(r@),
{
    let r = Rule {
        alts: vec![
            Alt {
                pat: vec![Cls::Rng('ก', 'ฮ'), Cls::Ch('ว'), Cls::Ch('ย')],
                out: vec![Out::Cap(0), Out::Lit('u'), Out::Lit('a'), Out::Lit('i')],
            },
        ],
    };
    assert(r@[0].pat =~= vowel_rule_8()[0].pat);
    assert(r@[0].out =~= vowel_rule_8()[0].out);
    assert(r@ =~= vowel_rule_8());
    r
}

/// Vowel pattern เ-ย reads as -oei.
pub open spec fn vowel_rule_9() -> Seq<AltSpec> {
    seq![
        AltSpec {
            pat: seq![Cls::Ch('\u{0e40}'), Cls::Rng('ก', 'ฮ'), Cls::Ch('ย')],
            out: seq![Out::Cap(1), Out::Lit('o'), Out::Lit('e'), Out::Lit('i')],
        },
    ]
}

/// Builds the rule `vowel_rule_9`.
pub fn make_vowel_rule_9() -> (r: Rule)
    ensures
        r@ == vowel_rule_9(),
        rule_wf(r@),
{
    let r = Rule {
        alts: vec![
            Alt {
                pat: vec![Cls::Ch('\u{0e40}'), Cls::Rng('ก', 'ฮ'), Cls::Ch('ย')],
                out: vec![Out::Cap(1), Out::Lit('o'), Out::Lit('e'), Out::Lit('i')],
            },
        ],
    };
    assert(r@[0].pat =~= vowel_rule_9()[0].pat);
    assert(r@[0].out =~= vowel_rule_9()[0].out);
    assert(r@ =~= vowel_rule_9());
    r
}

/// Vowel pattern -อย reads as -oi.
pub open spec fn vowel_rule_10() -> Seq<AltSpec> {
    seq![
        AltSpec {
            pat: seq![Cls::Rng('ก', 'ฮ'), Cls::Ch('อ'), Cls::Ch('ย')],
            out: seq![Out::Cap(0), Out::Lit('o'), Out::Lit('i')],
        },
    ]
}

/// Builds the rule `vowel_rule_10`.
pub fn make_vowel_rule_10() -> (r: Rule)
    ensures
        r@ == vowel_rule_10(),
        rule_wf(r@),
{
    let r = Rule {
        alts: vec![
            Alt {
                pat: vec![Cls::Rng('ก', 'ฮ'), Cls::Ch('อ'), Cls::Ch('ย')],
                out: vec![Out::Cap(0), Out::Lit('o'), Out::Lit('i')],
            },
        ],
    };
    assert(r@[0].pat =~= vowel_rule_10()[0].pat);
    assert(r@[0].out =~= vowel_rule_10()[0].out);
    assert(r@ =~= vowel_rule_10());
    r
}

/// Vowel pattern โ-ย reads as -oi.
pub open spec fn vowel_rule_11() -> Seq<AltSpec> {
    seq![
        AltSpec {
            pat: seq![Cls::Ch('\u{0e42}'), Cls::Rng('ก', 'ฮ'), Cls::Ch('ย')],
            out: seq![Out::Cap(1), Out::Lit('o'), Out::Lit('i')],
        },
    ]
}

/// Builds the rule `vowel_rule_11`.
pub fn make_vowel_rule_11() -> (r: Rule)
    ensures
        r@ == vowel_rule_11(),
        rule_wf(r@),
{
    let r = Rule {
        alts: vec![
            Alt {
                pat: vec![Cls::Ch('\u{0e42}'), Cls::Rng('ก', 'ฮ'), Cls::Ch('ย')],
                out: vec![Out::Cap(1), Out::Lit('o'), Out::Lit('i')],
            },
        ],
    };
    assert(r@[0].pat =~= vowel_rule_11()[0].pat);
    assert(r@[0].out =~= vowel_rule_11()[0].out);
    assert(r@ =~= vowel_rule_11());
    r
}

/// Vowel pattern -ุย reads as -ui.
pub open spec fn vowel_rule_12() -> Seq<AltSpec> {
    seq![
        AltSpec {
            pat: seq![Cls::Rng('ก', 'ฮ'), Cls::Ch('\u{0e38}'), Cls::Ch('ย')],
            out: seq![Out::Cap(0), Out::Lit('u'), Out::Lit('i')],
        },
    ]
}

/// Builds the rule `vowel_rule_12`.
pub fn make_vowel_rule_12() -> (r: Rule)
    ensures
        r@ == vowel_rule_12(),
        rule_wf(r@),
{
    let r = Rule {
        alts: vec![
            Alt {
                pat: vec![Cls::Rng('ก', 'ฮ'), Cls::Ch('\u{0e38}'), Cls::Ch('ย')],
                out: vec![Out::Cap(0), Out::Lit('u'), Out::Lit('i')],
            },
        ],
    };
    assert(r@[0].pat =~= vowel_rule_12()[0].pat);
    assert(r@[0].out =~= vowel_rule_12()[0].out);
    assert(r@ =~= vowel_rule_12());
    r
}

/// Vowel pattern -าย reads as -ai.
pub open spec fn vowel_rule_13() -> Seq<AltSpec> {
    seq![
        AltSpec {
            pat: seq![Cls::Rng('ก', 'ฮ'), Cls::Ch('\u{0e32}'), Cls::Ch('ย')],
            out: seq![Out::Cap(0), Out::Lit('a'), Out::Lit('i')],
        },
    ]
}

/// Builds the rule `vowel_rule_13`.
pub fn make_vowel_rule_13() -> (r: Rule)
    ensures
        r@ == vowel_rule_13(),
        rule_wf(r@),
{
    let r = Rule {
        alts: vec![
            Alt {
                pat: vec![Cls::Rng('ก', 'ฮ'), Cls::Ch('\u{0e32}'), Cls::Ch('ย')],
                out: vec![Out::Cap(0), Out::Lit('a'), Out::Lit('i')],
            },
        ],
    };
    assert(r@[0].pat =~= vowel_rule_13()[0].pat);
    assert(r@[0].out =~= vowel_rule_13()[0].out);
    assert(r@ =~= vowel_rule_13());
    r
}

/// Vowel pattern ไ-ย reads as -ai.
pub open spec fn vowel_rule_14() -> Seq<AltSpec> {
    seq![
        AltSpec {
            pat: seq![Cls::Ch('\u{0e44}'), Cls::Rng('ก', 'ฮ'), Cls::Ch('ย')],
            out: seq![Out::Cap(1), Out::Lit('a'), Out::Lit('i')],
        },
    ]
}

/// Builds the rule `vowel_rule_14`.
pub fn make_vowel_rule_14() -> (r: Rule)
    ensures
        r@ == vowel_rule_14(),
        rule_wf(r@),
{
    let r = Rule {
        alts: vec![
            Alt {
                pat: vec![Cls::Ch('\u{0e44}'), Cls::Rng('ก', 'ฮ'), Cls::Ch('ย')],
                out: vec![Out::Cap(1), Out::Lit('a'), Out::Lit('i')],
            },
        ],
    };
    assert(r@[0].pat =~= vowel_rule_14()[0].pat);
    assert(r@[0].out =~= vowel_rule_14()[0].out);
    assert(r@ =~= vowel_rule_14());
    r
}

/// Vowel pattern -ัย reads as -ai.
pub open spec fn vowel_rule_15() -> Seq<AltSpec> {
    seq![
        AltSpec {
            pat: seq![Cls::Rng('ก', 'ฮ'), Cls::Ch('\u{0e31}'), Cls::Ch('ย')],
            out: seq![Out::Cap(0), Out::Lit('a'), Out::Lit('i')],
        },
    ]
}

/// Builds the rule `vowel_rule_15`.
pub fn make_vowel_rule_15() -> (r: Rule)
    ensures
        r@ == vowel_rule_15(),
        rule_wf(r@),
{
    let r = Rule {
        alts: vec![
            Alt {
                pat: vec![Cls::Rng('ก', 'ฮ'), Cls::Ch('\u{0e31}'), Cls::Ch('ย')],
                out: vec![Out::Cap(0), Out::Lit('a'), Out::Lit('i')],
            },
        ],
    };
    assert(r@[0].pat =~= vowel_rule_15()[0].pat);
    assert(r@[0].out =~= vowel_rule_15()[0].out);
    assert(r@ =~= vowel_rule_15());
    r
}

/// Vowel pattern ไ-- reads as --ai.
pub open spec fn vowel_rule_16() -> Seq<AltSpec> {
    seq![
        AltSpec {
            pat: seq![Cls::Ch('\u{0e44}'), Cls::Rng('ก', 'ฮ'), Cls::Rng('ก', 'ฮ')],
            out: seq![Out::Cap(1), Out::Cap(2), Out::Lit('a'), Out::Lit('i')],
        },
    ]
}

/// Builds the rule `vowel_rule_16`.
pub fn make_vowel_rule_16() -> (r: Rule)
    ensures
        r@ == vowel_rule_16(),
        rule_wf(r@),
{
    let r = Rule {
        alts: vec![
            Alt {
                pat: vec![Cls::Ch('\u{0e44}'), Cls::Rng('ก', 'ฮ'), Cls::Rng('ก', 'ฮ')],
                out: vec![Out::Cap(1), Out::Cap(2), Out::Lit('a'), Out::Lit('i')],
            },
        ],
    };
    assert(r@[0].pat =~= vowel_rule_16()[0].pat);
    assert(r@[0].out =~= vowel_rule_16()[0].out);
    assert(r@ =~= vowel_rule_16());
    r
}

/// Vowel pattern ไ- reads as -ai.
pub open spec fn vowel_rule_17() -> Seq<AltSpec> {
    seq![
        AltSpec {
            pat: seq![Cls::Ch('\u{0e44}'), Cls::Rng('ก', 'ฮ')],
            out: seq![Out::Cap(1), Out::Lit('a'), Out::Lit('i')],
        },
    ]
}

/// Builds the rule `vowel_rule_17`.
pub fn make_vowel_rule_17() -> (r: Rule)
    ensures
        r@ == vowel_rule_17(),
        rule_wf(r@),
{
    let r = Rule {
        alts: vec![
            Alt {
                pat: vec![Cls::Ch('\u{0e44}'), Cls::Rng('ก', 'ฮ')],
                out: vec![Out::Cap(1), Out::Lit('a'), Out::Lit('i')],
            },
        ],
    };
    assert(r@[0].pat =~= vowel_rule_17()[0].pat);
    assert(r@[0].out =~= vowel_rule_17()[0].out);
    assert(r@ =~= vowel_rule_17());
    r
}

/// Vowel pattern ใ- reads as -ai.
pub open spec fn vowel_rule_18() -> Seq<AltSpec> {
    seq![
        AltSpec {
            pat: seq![Cls::Ch('\u{0e43}'), Cls::Rng('ก', 'ฮ')],
            out: seq![Out::Cap(1), Out::Lit('a'), Out::Lit('i')],
        },
    ]
}

/// Builds the rule `vowel_rule_18`.
pub fn make_vowel_rule_18() -> (r: Rule)
    ensures
        r@ == vowel_rule_18(),
        rule_wf(r@),
{
    let r = Rule {
        alts: vec![
            Alt {
                pat: vec![Cls::Ch('\u{0e43}'), Cls::Rng('ก', 'ฮ')],
                out: vec![Out::Cap(1), Out::Lit('a'), Out::Lit('i')],
            },
        ],
    };
    assert(r@[0].pat =~= vowel_rule_18()[0].pat);
    assert(r@[0].out =~= vowel_rule_18()[0].out);
    assert(r@ =~= vowel_rule_18());
    r
}

/// Vowel pattern -ว- reads as -ua-.
pub open spec fn vowel_rule_19() -> Seq<AltSpec> {
    seq![
        AltSpec {
            pat: seq![Cls::Rng('ก', 'ฮ'), Cls::Ch('ว'), Cls::Rng('ก', 'ฮ')],
            out: seq![Out::Cap(0), Out::Lit('u'), Out::Lit('a'), Out::Cap(2)],
        },
    ]
}

/// Builds the rule `vowel_rule_19`.
pub fn make_vowel_rule_19() -> (r: Rule)
    ensures
        r@ == vowel_rule_19(),
        rule_wf(r@),
{
    let r = Rule {
        alts: vec![
            Alt {
                pat: vec![Cls::Rng('ก', 'ฮ'), Cls::Ch('ว'), Cls::Rng('ก', 'ฮ')],
                out: vec![Out::Cap(0), Out::Lit('u'), Out::Lit('a'), Out::Cap(2)],
            },
        ],
    };
    assert(r@[0].pat =~= vowel_rule_19()[0].pat);
    assert(r@[0].out =~= vowel_rule_19()[0].out);
    assert(r@ =~= vowel_rule_19());
    r
}

/// Vowel pattern -ัวะ reads as -ua.
pub open spec fn vowel_rule_20() -> Seq<AltSpec> {
    seq![
        AltSpec {
            pat: seq![Cls::Rng('ก', 'ฮ'), Cls::Ch('\u{0e31}'), Cls::Ch('ว'), Cls::Ch('\u{0e30}')],
            out: seq![Out::Cap(0), Out::Lit('u'), Out::Lit('a')],
        },
    ]
}

/// Builds the rule `vowel_rule_20`.
pub fn make_vowel_rule_20() -> (r: Rule)
    ensures
        r@ == vowel_rule_20(),
        rule_wf(r@),
{
    let r = Rule {
        alts: vec![
            Alt {
                pat: vec![Cls::Rng('ก', 'ฮ'), Cls::Ch('\u{0e31}'), Cls::Ch('ว'), Cls::Ch('\u{0e30}')],
                out: vec![Out::Cap(0), Out::Lit('u'), Out::Lit('a')],
            },
        ],
    };
    assert(r@[0].pat =~= vowel_rule_20()[0].pat);
    assert(r@[0].out =~= vowel_rule_20()[0].out);
    assert(r@ =~= vowel_rule_20());
    r
}

/// Vowel pattern -ัว reads as -ua.
pub open spec fn vowel_rule_21() -> Seq<AltSpec> {
    seq![
        AltSpec {
            pat: seq![Cls::Rng('ก', 'ฮ'), Cls::Ch('\u{0e31}'), Cls::Ch('ว')],
            out: seq![Out::Cap(0), Out::Lit('u'), Out::Lit('a')],
        },
    ]
}

/// Builds the rule `vowel_rule_21`.
pub fn make_vowel_rule_21() -> (r: Rule)
    ensures
        r@ == vowel_rule_21(),
        rule_wf(r@),
{
    let r = Rule {
        alts: vec![
            Alt {
                pat: vec![Cls::Rng('ก', 'ฮ'), Cls::Ch('\u{0e31}'), Cls::Ch('ว')],
                out: vec![Out::Cap(0), Out::Lit('u'), Out::Lit('a')],
            },
        ],
    };
    assert(r@[0].pat =~= vowel_rule_21()[0].pat);
    assert(r@[0].out =~= vowel_rule_21()[0].out);
    assert(r@ =~= vowel_rule_21());
    r
}

/// Vowel pattern เ-ือะ reads as -uea.
pub open spec fn vowel_rule_22() -> Seq<AltSpec> {
    seq![
        AltSpec {
            pat: seq![Cls::Ch('\u{0e40}'), Cls::Rng('ก', 'ฮ'), Cls::Ch('\u{0e37}'), Cls::Ch('อ'), Cls::Ch('\u{0e30}')],
            out: seq![Out::Cap(1), Out::Lit('u'), Out::Lit('e'), Out::Lit('a')],
        },
    ]
}

/// Builds the rule `vowel_rule_22`.
pub fn make_vowel_rule_22() -> (r: Rule)
    ensures
        r@ == vowel_rule_22(),
        rule_wf(r@),
{
    let r = Rule {
        alts: vec![
            Alt {
                pat: vec![Cls::Ch('\u{0e40}'), Cls::Rng('ก', 'ฮ'), Cls::Ch('\u{0e37}'), Cls::Ch('อ'), Cls::Ch('\u{0e30}')],
                out: vec![Out::Cap(1), Out::Lit('u'), Out::Lit('e'), Out::Lit('a')],
            },
        ],
    };
    assert(r@[0].pat =~= vowel_rule_22()[0].pat);
    assert(r@[0].out =~= vowel_rule_22()[0].out);
    assert(r@ =~= vowel_rule_22());
    r
}

/// Vowel pattern เ-ือ reads as -uea.
pub open spec fn vowel_rule_23() -> Seq<AltSpec> {
    seq![
        AltSpec {
            pat: seq![Cls::Ch('\u{0e40}'), Cls::Rng('ก', 'ฮ'), Cls::Ch('\u{0e37}'), Cls::Ch('อ')],
            out: seq![Out::Cap(1), Out::Lit('u'), Out::Lit('e'), Out::Lit('a')],
        },
    ]
}

/// Builds the rule `vowel_rule_23`.
pub fn make_vowel_rule_23() -> (r: Rule)
    ensures
        r@ == vowel_rule_23(),
        rule_wf(r@),
{
    let r = Rule {
        alts: vec![
            Alt {
                pat: vec![Cls::Ch('\u{0e40}'), Cls::Rng('ก', 'ฮ'), Cls::Ch('\u{0e37}'), Cls::Ch('อ')],
                out: vec![Out::Cap(1), Out::Lit('u'), Out::Lit('e'), Out::Lit('a')],
            },
        ],
    };
    assert(r@[0].pat =~= vowel_rule_23()[0].pat);
    assert(r@[0].out =~= vowel_rule_23()[0].out);
    assert(r@ =~= vowel_rule_23());
    r
}

/// Vowel pattern เ-ียะ reads as -ia.
pub open spec fn vowel_rule_24() -> Seq<AltSpec> {
    seq![
        AltSpec {
            pat: seq![Cls::Ch('\u{0e40}'), Cls::Rng('ก', 'ฮ'), Cls::Ch('\u{0e35}'), Cls::Ch('ย'), Cls::Ch('\u{0e30}')],
            out: seq![Out::Cap(1), Out::Lit('i'), Out::Lit('a')],
        },
    ]
}

/// Builds the rule `vowel_rule_24`.
pub fn make_vowel_rule_24() -> (r: Rule)
    ensures
        r@ == vowel_rule_24(),
        rule_wf(r@),
{
    let r = Rule {
        alts: vec![
            Alt {
                pat: vec![Cls::Ch('\u{0e40}'), Cls::Rng('ก', 'ฮ'), Cls::Ch('\u{0e35}'), Cls::Ch('ย'), Cls::Ch('\u{0e30}')],
                out: vec![Out::Cap(1), Out::Lit('i'), Out::Lit('a')],
            },
        ],
    };
    assert(r@[0].pat =~= vowel_rule_24()[0].pat);
    assert(r@[0].out =~= vowel_rule_24()[0].out);
    assert(r@ =~= vowel_rule_24());
    r
}

/// Vowel pattern เ-ีย reads as -ia.
pub open spec fn vowel_rule_25() -> Seq<AltSpec> {
    seq![
        AltSpec {
            pat: seq![Cls::Ch('\u{0e40}'), Cls::Rng('ก', 'ฮ'), Cls::Ch('\u{0e35}'), Cls::Ch('ย')],
            out: seq![Out::Cap(1), Out::Lit('i'), Out::Lit('a')],
        },
    ]
}

/// Builds the rule `vowel_rule_25`.
pub fn make_vowel_rule_25() -> (r: Rule)
    ensures
        r@ == vowel_rule_25(),
        rule_wf(r@),
{
    let r = Rule {
        alts: vec![
            Alt {
                pat: vec![Cls::Ch('\u{0e40}'), Cls::Rng('ก', 'ฮ'), Cls::Ch('\u{0e35}'), Cls::Ch('ย')],
                out: vec![Out::Cap(1), Out::Lit('i'), Out::Lit('a')],
            },
        ],
    };
    assert(r@[0].pat =~= vowel_rule_25()[0].pat);
    assert(r@[0].out =~= vowel_rule_25()[0].out);
    assert(r@ =~= vowel_rule_25());
    r
}

/// Vowel pattern เ-อะ reads as -oe.
pub open spec fn vowel_rule_26() -> Seq<AltSpec> {
    seq![
        AltSpec {
            pat: seq![Cls::Ch('\u{0e40}'), Cls::Rng('ก', 'ฮ'), Cls::Ch('อ'), Cls::Ch('\u{0e30}')],
            out: seq![Out::Cap(1), Out::Lit('o'), Out::Lit('e')],
        },
    ]
}

/// Builds the rule `vowel_rule_26`.
pub fn make_vowel_rule_26() -> (r: Rule)
    ensures
        r@ == vowel_rule_26(),
        rule_wf(r@),
{
    let r = Rule {
        alts: vec![
            Alt {
                pat: vec![Cls::Ch('\u{0e40}'), Cls::Rng('ก', 'ฮ'), Cls::Ch('อ'), Cls::Ch('\u{0e30}')],
                out: vec![Out::Cap(1), Out::Lit('o'), Out::Lit('e')],
            },
        ],
    };
    assert(r@[0].pat =~= vowel_rule_26()[0].pat);
    assert(r@[0].out =~= vowel_rule_26()[0].out);
    assert(r@ =~= vowel_rule_26());
    r
}

/// Vowel pattern เ-อ reads as -oe.
pub open spec fn vowel_rule_27() -> Seq<AltSpec> {
    seq![
        AltSpec {
            pat: seq![Cls::Ch('\u{0e40}'), Cls::Rng('ก', 'ฮ'), Cls::Ch('อ')],
            out: seq![Out::Cap(1), Out::Lit('o'), Out::Lit('e')],
        },
    ]
}

/// Builds the rule `vowel_rule_27`.
pub fn make_vowel_rule_27() -> (r: Rule)
    ensures
        r@ == vowel_rule_27(),
        rule_wf(r@),
{
    let r = Rule {
        alts: vec![
            Alt {
                pat: vec![Cls::Ch('\u{0e40}'), Cls::Rng('ก', 'ฮ'), Cls::Ch('อ')],
                out: vec![Out::Cap(1), Out::Lit('o'), Out::Lit('e')],
            },
        ],
    };
    assert(r@[0].pat =~= vowel_rule_27()[0].pat);
    assert(r@[0].out =~= vowel_rule_27()[0].out);
    assert(r@ =~= vowel_rule_27());
    r
}

/// Vowel pattern เ-ิ reads as -oe.
pub open spec fn vowel_rule_28() -> Seq<AltSpec> {
    seq![
        AltSpec {
            pat: seq![Cls::Ch('\u{0e40}'), Cls::Rng('ก', 'ฮ'), Cls::Ch('\u{0e34}')],
            out: seq![Out::Cap(1), Out::Lit('o'), Out::Lit('e')],
        },
    ]
}

/// Builds the rule `vowel_rule_28`.
pub fn make_vowel_rule_28() -> (r: Rule)
    ensures
        r@ == vowel_rule_28(),
        rule_wf(r@),
{
    let r = Rule {
        alts: vec![
            Alt {
                pat: vec![Cls::Ch('\u{0e40}'), Cls::Rng('ก', 'ฮ'), Cls::Ch('\u{0e34}')],
                out: vec![Out::Cap(1), Out::Lit('o'), Out::Lit('e')],
            },
        ],
    };
    assert(r@[0].pat =~= vowel_rule_28()[0].pat);
    assert(r@[0].out =~= vowel_rule_28()[0].out);
    assert(r@ =~= vowel_rule_28());
    r
}

/// Vowel pattern -อ reads as -o.
pub open spec fn vowel_rule_29() -> Seq<AltSpec> {
    seq![
        AltSpec {
            pat: seq![Cls::Rng('ก', 'ฮ'), Cls::Ch('อ')],
            out: seq![Out::Cap(0), Out::Lit('o')],
        },
    ]
}

/// Builds the rule `vowel_rule_29`.
pub fn make_vowel_rule_29() -> (r: Rule)
    ensures
        r@ == vowel_rule_29(),
        rule_wf(r@),
{
    let r = Rule {
        alts: vec![
            Alt {
                pat: vec![Cls::Rng('ก', 'ฮ'), Cls::Ch('อ')],
                out: vec![Out::Cap(0), Out::Lit('o')],
            },
        ],
    };
    assert(r@[0].pat =~= vowel_rule_29()[0].pat);
    assert(r@[0].out =~= vowel_rule_29()[0].out);
    assert(r@ =~= vowel_rule_29());
    r
}

/// Vowel pattern เ-าะ reads as -o.
pub open spec fn vowel_rule_30() -> Seq<AltSpec> {
    seq![
        AltSpec {
            pat: seq![Cls::Ch('\u{0e40}'), Cls::Rng('ก', 'ฮ'), Cls::Ch('\u{0e32}'), Cls::Ch('\u{0e30}')],
            out: seq![Out::Cap(1), Out::Lit('o')],
        },
    ]
}

/// Builds the rule `vowel_rule_30`.
pub fn make_vowel_rule_30() -> (r: Rule)
    ensures
        r@ == vowel_rule_30(),
        rule_wf(r@),
{
    let r = Rule {
        alts: vec![
            Alt {
                pat: vec![Cls::Ch('\u{0e40}'), Cls::Rng('ก', 'ฮ'), Cls::Ch('\u{0e32}'), Cls::Ch('\u{0e30}')],
                out: vec![Out::Cap(1), Out::Lit('o')],
            },
        ],
    };
    assert(r@[0].pat =~= vowel_rule_30()[0].pat);
    assert(r@[0].out =~= vowel_rule_30()[0].out);
    assert(r@ =~= vowel_rule_30());
    r
}

/// Vowel pattern เ-็ reads as -e.
pub open spec fn vowel_rule_31() -> Seq<AltSpec> {
    seq![
        AltSpec {
            pat: seq![Cls::Ch('\u{0e40}'), Cls::Rng('ก', 'ฮ'), Cls::Ch('\u{0e47}')],
            out: seq![Out::Cap(1), Out::Lit('e')],
        },
    ]
}

/// Builds the rule `vowel_rule_31`.
pub fn make_vowel_rule_31() -> (r: Rule)
    ensures
        r@ == vowel_rule_31(),
        rule_wf(r@),
{
    let r = Rule {
        alts: vec![
            Alt {
                pat: vec![Cls::Ch('\u{0e40}'), Cls::Rng('ก', 'ฮ'), Cls::Ch('\u{0e47}')],
                out: vec![Out::Cap(1), Out::Lit('e')],
            },
        ],
    };
    assert(r@[0].pat =~= vowel_rule_31()[0].pat);
    assert(r@[0].out =~= vowel_rule_31()[0].out);
    assert(r@ =~= vowel_rule_31());
    r
}

/// Vowel pattern โ-ะ reads as -o.
pub open spec fn vowel_rule_32() -> Seq<AltSpec> {
    seq![
        AltSpec {
            pat: seq![Cls::Ch('\u{0e42}'), Cls::Rng('ก', 'ฮ'), Cls::Ch('\u{0e30}')],
            out: seq![Out::Cap(1), Out::Lit('o')],
        },
    ]
}

/// Builds the rule `vowel_rule_32`.
pub fn make_vowel_rule_32() -> (r: Rule)
    ensures
        r@ == vowel_rule_32(),
        rule_wf(r@),
{
    let r = Rule {
        alts: vec![
            Alt {
                pat: vec![Cls::Ch('\u{0e42}'), Cls::Rng('ก', 'ฮ'), Cls::Ch('\u{0e30}')],
                out: vec![Out::Cap(1), Out::Lit('o')],
            },
        ],
    };
    assert(r@[0].pat =~= vowel_rule_32()[0].pat);
    assert(r@[0].out =~= vowel_rule_32()[0].out);
    assert(r@ =~= vowel_rule_32());
    r
}

/// Vowel pattern โ- reads as -o.
pub open spec fn vowel_rule_33() -> Seq<AltSpec> {
    seq![
        AltSpec {
            pat: seq![Cls::Ch('\u{0e42}'), Cls::Rng('ก', 'ฮ')],
            out: seq![Out::Cap(1), Out::Lit('o')],
        },
    ]
}

/// Builds the rule `vowel_rule_33`.
pub fn make_vowel_rule_33() -> (r: Rule)
    ensures
        r@ == vowel_rule_33(),
        rule_wf(r@),
{
    let r = Rule {
        alts: vec![
            Alt {
                pat: vec![Cls::Ch('\u{0e42}'), Cls::Rng('ก', 'ฮ')],
                out: vec![Out::Cap(1), Out::Lit('o')],
            },
        ],
    };
    assert(r@[0].pat =~= vowel_rule_33()[0].pat);
    assert(r@[0].out =~= vowel_rule_33()[0].out);
    assert(r@ =~= vowel_rule_33());
    r
}

/// Vowel pattern แ-ะ reads as -ae.
pub open spec fn vowel_rule_34() -> Seq<AltSpec> {
    seq![
        AltSpec {
            pat: seq![Cls::Ch('\u{0e41}'), Cls::Rng('ก', 'ฮ'), Cls::Ch('\u{0e30}')],
            out: seq![Out::Cap(1), Out::Lit('a'), Out::Lit('e')],
        },
    ]
}

/// Builds the rule `vowel_rule_34`.
pub fn make_vowel_rule_34() -> (r: Rule)
    ensures
        r@ == vowel_rule_34(),
        rule_wf(r@),
{
    let r = Rule {
        alts: vec![
            Alt {
                pat: vec![Cls::Ch('\u{0e41}'), Cls::Rng('ก', 'ฮ'), Cls::Ch('\u{0e30}')],
                out: vec![Out::Cap(1), Out::Lit('a'), Out::Lit('e')],
            },
        ],
    };
    assert(r@[0].pat =~= vowel_rule_34()[0].pat);
    assert(r@[0].out =~= vowel_rule_34()[0].out);
    assert(r@ =~= vowel_rule_34());
    r
}

/// Vowel pattern แ- reads as -ae.
pub open spec fn vowel_rule_35() -> Seq<AltSpec> {
    seq![
        AltSpec {
            pat: seq![Cls::Ch('\u{0e41}'), Cls::Rng('ก', 'ฮ')],
            out: seq![Out::Cap(1), Out::Lit('a'), Out::Lit('e')],
        },
    ]
}

/// Builds the rule `vowel_rule_35`.
pub fn make_vowel_rule_35() -> (r: Rule)
    ensures
        r@ == vowel_rule_35(),
        rule_wf(r@),
{
    let r = Rule {
        alts: vec![
            Alt {
                pat: vec![Cls::Ch('\u{0e41}'), Cls::Rng('ก', 'ฮ')],
                out: vec![Out::Cap(1), Out::Lit('a'), Out::Lit('e')],
            },
        ],
    };
    assert(r@[0].pat =~= vowel_rule_35()[0].pat);
    assert(r@[0].out =~= vowel_rule_35()[0].out);
    assert(r@ =~= vowel_rule_35());
    r
}

/// Vowel pattern เ-าะ reads as -e.
pub open spec fn vowel_rule_36() -> Seq<AltSpec> {
    seq![
        AltSpec {
            pat: seq![Cls::Ch('\u{0e40}'), Cls::Rng('ก', 'ฮ'), Cls::Ch('\u{0e32}'), Cls::Ch('\u{0e30}')],
            out: seq![Out::Cap(1), Out::Lit('e')],
        },
    ]
}

/// Builds the rule `vowel_rule_36`.
pub fn make_vowel_rule_36() -> (r: Rule)
    ensures
        r@ == vowel_rule_36(),
        rule_wf(r@),
{
    let r = Rule {
        alts: vec![
            Alt {
                pat: vec![Cls::Ch('\u{0e40}'), Cls::Rng('ก', 'ฮ'), Cls::Ch('\u{0e32}'), Cls::Ch('\u{0e30}')],
                out: vec![Out::Cap(1), Out::Lit('e')],
            },
        ],
    };
    assert(r@[0].pat =~= vowel_rule_36()[0].pat);
    assert(r@[0].out =~= vowel_rule_36()[0].out);
    assert(r@ =~= vowel_rule_36());
    r
}

/// Vowel pattern -าว reads as -ao.
pub open spec fn vowel_rule_37() -> Seq<AltSpec> {
    seq![
        AltSpec {
            pat: seq![Cls::Rng('ก', 'ฮ'), Cls::Ch('\u{0e32}'), Cls::Ch('ว')],
            out: seq![Out::Cap(0), Out::Lit('a'), Out::Lit('o')],
        },
    ]
}

/// Builds the rule `vowel_rule_37`.
pub fn make_vowel_rule_37() -> (r: Rule)
    ensures
        r@ == vowel_rule_37(),
        rule_wf(r@),
{
    let r = Rule {
        alts: vec![
            Alt {
                pat: vec![Cls::Rng('ก', 'ฮ'), Cls::Ch('\u{0e32}'), Cls::Ch('ว')],
                out: vec![Out::Cap(0), Out::Lit('a'), Out::Lit('o')],
            },
        ],
    };
    assert(r@[0].pat =~= vowel_rule_37()[0].pat);
    assert(r@[0].out =~= vowel_rule_37()[0].out);
    assert(r@ =~= vowel_rule_37());
    r
}

/// Vowel pattern เ-า reads as -ao.
pub open spec fn vowel_rule_38() -> Seq<AltSpec> {
    seq![
        AltSpec {
            pat: seq![Cls::Ch('\u{0e40}'), Cls::Rng('ก', 'ฮ'), Cls::Ch('\u{0e32}')],
            out: seq![Out::Cap(1), Out::Lit('a'), Out::Lit('o')],
        },
    ]
}

/// Builds the rule `vowel_rule_38`.
pub fn make_vowel_rule_38() -> (r: Rule)
    ensures
        r@ == vowel_rule_38(),
        rule_wf(r@),
{
    let r = Rule {
        alts: vec![
            Alt {
                pat: vec![Cls::Ch('\u{0e40}'), Cls::Rng('ก', 'ฮ'), Cls::Ch('\u{0e32}')],
                out: vec![Out::Cap(1), Out::Lit('a'), Out::Lit('o')],
            },
        ],
    };
    assert(r@[0].pat =~= vowel_rule_38()[0].pat);
    assert(r@[0].out =~= vowel_rule_38()[0].out);
    assert(r@ =~= vowel_rule_38());
    r
}

/// Vowel pattern เ- reads as -e.
pub open spec fn vowel_rule_39() -> Seq<AltSpec> {
    seq![
        AltSpec {
            pat: seq![Cls::Ch('\u{0e40}'), Cls::Rng('ก', 'ฮ')],
            out: seq![Out::Cap(1), Out::Lit('e')],
        },
    ]
}

/// Builds the rule `vowel_rule_39`.
pub fn make_vowel_rule_39() -> (r: Rule)
    ensures
        r@ == vowel_rule_39(),
        rule_wf(r@),
{
    let r = Rule {
        alts: vec![
            Alt {
                pat: vec![Cls::Ch('\u{0e40}'), Cls::Rng('ก', 'ฮ')],
                out: vec![Out::Cap(1), Out::Lit('e')],
            },
        ],
    };
    assert(r@[0].pat =~= vowel_rule_39()[0].pat);
    assert(r@[0].out =~= vowel_rule_39()[0].out);
    assert(r@ =~= vowel_rule_39());
    r
}

/// Vowel pattern -ู reads as -u.
pub open spec fn vowel_rule_40() -> Seq<AltSpec> {
    seq![
        AltSpec {
            pat: seq![Cls::Rng('ก', 'ฮ'), Cls::Ch('\u{0e39}')],
            out: seq![Out::Cap(0), Out::Lit('u')],
        },
    ]
}

/// Builds the rule `vowel_rule_40`.
pub fn make_vowel_rule_40() -> (r: Rule)
    ensures
        r@ == vowel_rule_40(),
        rule_wf(r@),
{
    let r = Rule {
        alts: vec![
            Alt {
                pat: vec![Cls::Rng('ก', 'ฮ'), Cls::Ch('\u{0e39}')],
                out: vec![Out::Cap(0), Out::Lit('u')],
            },
        ],
    };
    assert(r@[0].pat =~= vowel_rule_40()[0].pat);
    assert(r@[0].out =~= vowel_rule_40()[0].out);
    assert(r@ =~= vowel_rule_40());
    r
}

/// Vowel pattern -ุ reads as -u.
pub open spec fn vowel_rule_41() -> Seq<AltSpec> {
    seq![
        AltSpec {
            pat: seq![Cls::Rng('ก', 'ฮ'), Cls::Ch('\u{0e38}')],
            out: seq![Out::Cap(0), Out::Lit('u')],
        },
    ]
}

/// Builds the rule `vowel_rule_41`.
pub fn make_vowel_rule_41() -> (r: Rule)
    ensures
        r@ == vowel_rule_41(),
        rule_wf(r@),
{
    let r = Rule {
        alts: vec![
            Alt {
                pat: vec![Cls::Rng('ก', 'ฮ'), Cls::Ch('\u{0e38}')],
                out: vec![Out::Cap(0), Out::Lit('u')],
            },
        ],
    };
    assert(r@[0].pat =~= vowel_rule_41()[0].pat);
    assert(r@[0].out =~= vowel_rule_41()[0].out);
    assert(r@ =~= vowel_rule_41());
    r
}

/// Vowel pattern -ื reads as -ue.
pub open spec fn vowel_rule_42() -> Seq<AltSpec> {
    seq![
        AltSpec {
            pat: seq![Cls::Rng('ก', 'ฮ'), Cls::Ch('\u{0e37}')],
            out: seq![Out::Cap(0), Out::Lit('u'), Out::Lit('e')],
        },
    ]
}

/// Builds the rule `vowel_rule_42`.
pub fn make_vowel_rule_42() -> (r: Rule)
    ensures
        r@ == vowel_rule_42(),
        rule_wf(r@),
{
    let r = Rule {
        alts: vec![
            Alt {
                pat: vec![Cls::Rng('ก', 'ฮ'), Cls::Ch('\u{0e37}')],
                out: vec![Out::Cap(0), Out::Lit('u'), Out::Lit('e')],
            },
        ],
    };
    assert(r@[0].pat =~= vowel_rule_42()[0].pat);
    assert(r@[0].out =~= vowel_rule_42()[0].out);
    assert(r@ =~= vowel_rule_42());
    r
}

/// Vowel pattern -ึ reads as -ue.
pub open spec fn vowel_rule_43() -> Seq<AltSpec> {
    seq![
        AltSpec {
            pat: seq![Cls::Rng('ก', 'ฮ'), Cls::Ch('\u{0e36}')],
            out: seq![Out::Cap(0), Out::Lit('u'), Out::Lit('e')],
        },
    ]
}

/// Builds the rule `vowel_rule_43`.
pub fn make_vowel_rule_43() -> (r: Rule)
    ensures
        r@ == vowel_rule_43(),
        rule_wf(r@),
{
    let r = Rule {
        alts: vec![
            Alt {
                pat: vec![Cls::Rng('ก', 'ฮ'), Cls::Ch('\u{0e36}')],
                out: vec![Out::Cap(0), Out::Lit('u'), Out::Lit('e')],
            },
        ],
    };
    assert(r@[0].pat =~= vowel_rule_43()[0].pat);
    assert(r@[0].out =~= vowel_rule_43()[0].out);
    assert(r@ =~= vowel_rule_43());
    r
}

/// Vowel pattern -ี reads as -i.
pub open spec fn vowel_rule_44() -> Seq<AltSpec> {
    seq![
        AltSpec {
            pat: seq![Cls::Rng('ก', 'ฮ'), Cls::Ch('\u{0e35}')],
            out: seq![Out::Cap(0), Out::Lit('i')],
        },
    ]
}

/// Builds the rule `vowel_rule_44`.
pub fn make_vowel_rule_44() -> (r: Rule)
    ensures
        r@ == vowel_rule_44(),
        rule_wf(r@),
{
    let r = Rule {
        alts: vec![
            Alt {
                pat: vec![Cls::Rng('ก', 'ฮ'), Cls::Ch('\u{0e35}')],
                out: vec![Out::Cap(0), Out::Lit('i')],
            },
        ],
    };
    assert(r@[0].pat =~= vowel_rule_44()[0].pat);
    assert(r@[0].out =~= vowel_rule_44()[0].out);
    assert(r@ =~= vowel_rule_44());
    r
}

/// Vowel pattern -ิ reads as -i.
pub open spec fn vowel_rule_45() -> Seq<AltSpec> {
    seq![
        AltSpec {
            pat: seq![Cls::Rng('ก', 'ฮ'), Cls::Ch('\u{0e34}')],
            out: seq![Out::Cap(0), Out::Lit('i')],
        },
    ]
}

/// Builds the rule `vowel_rule_45`.
pub fn make_vowel_rule_45() -> (r: Rule)
    ensures
        r@ == vowel_rule_45(),
        rule_wf(r@),
{
    let r = Rule {
        alts: vec![
            Alt {
                pat: vec![Cls::Rng('ก', 'ฮ'), Cls::Ch('\u{0e34}')],
                out: vec![Out::Cap(0), Out::Lit('i')],
            },
        ],
    };
    assert(r@[0].pat =~= vowel_rule_45()[0].pat);
    assert(r@[0].out =~= vowel_rule_45()[0].out);
    assert(r@ =~= vowel_rule_45());
    r
}

/// Vowel pattern -ำ reads as -am.
pub open spec fn vowel_rule_46() -> Seq<AltSpec> {
    seq![
        AltSpec {
            pat: seq![Cls::Rng('ก', 'ฮ'), Cls::Ch('\u{0e33}')],
            out: seq![Out::Cap(0), Out::Lit('a'), Out::Lit('m')],
        },
    ]
}

/// Builds the rule `vowel_rule_46`.
pub fn make_vowel_rule_46() -> (r: Rule)
    ensures
        r@ == vowel_rule_46(),
        rule_wf(r@),
{
    let r = Rule {
        alts: vec![
            Alt {
                pat: vec![Cls::Rng('ก', 'ฮ'), Cls::Ch('\u{0e33}')],
                out: vec![Out::Cap(0), Out::Lit('a'), Out::Lit('m')],
            },
        ],
    };
    assert(r@[0].pat =~= vowel_rule_46()[0].pat);
    assert(r@[0].out =~= vowel_rule_46()[0].out);
    assert(r@ =~= vowel_rule_46());
    r
}

/// Vowel pattern -า reads as -a.
pub open spec fn vowel_rule_47() -> Seq<AltSpec> {
    seq![
        AltSpec {
            pat: seq![Cls::Rng('ก', 'ฮ'), Cls::Ch('\u{0e32}')],
            out: seq![Out::Cap(0), Out::Lit('a')],
        },
    ]
}

/// Builds the rule `vowel_rule_47`.
pub fn make_vowel_rule_47() -> (r: Rule)
    ensures
        r@ == vowel_rule_47(),
        rule_wf(r@),
{
    let r = Rule {
        alts: vec![
            Alt {
                pat: vec![Cls::Rng('ก', 'ฮ'), Cls::Ch('\u{0e32}')],
                out: vec![Out::Cap(0), Out::Lit('a')],
            },
        ],
    };
    assert(r@[0].pat =~= vowel_rule_47()[0].pat);
    assert(r@[0].out =~= vowel_rule_47()[0].out);
    assert(r@ =~= vowel_rule_47());
    r
}

/// Vowel pattern -ั reads as -a.
pub open spec fn vowel_rule_48() -> Seq<AltSpec> {
    seq![
        AltSpec {
            pat: seq![Cls::Rng('ก', 'ฮ'), Cls::Ch('\u{0e31}')],
            out: seq![Out::Cap(0), Out::Lit('a')],
        },
    ]
}

/// Builds the rule `vowel_rule_48`.
pub fn make_vowel_rule_48() -> (r: Rule)
    ensures
        r@ == vowel_rule_48(),
        rule_wf(r@),
{
    let r = Rule {
        alts: vec![
            Alt {
                pat: vec![Cls::Rng('ก', 'ฮ'), Cls::Ch('\u{0e31}')],
                out: vec![Out::Cap(0), Out::Lit('a')],
            },
        ],
    };
    assert(r@[0].pat =~= vowel_rule_48()[0].pat);
    assert(r@[0].out =~= vowel_rule_48()[0].out);
    assert(r@ =~= vowel_rule_48());
    r
}

/// Vowel pattern -ะ reads as -a.
pub open spec fn vowel_rule_49() -> Seq<AltSpec> {
    seq![
        AltSpec {
            pat: seq![Cls::Rng('ก', 'ฮ'), Cls::Ch('\u{0e30}')],
            out: seq![Out::Cap(0), Out::Lit('a')],
        },
    ]
}

/// Builds the rule `vowel_rule_49`.
pub fn make_vowel_rule_49() -> (r: Rule)
    ensures
        r@ == vowel_rule_49(),
        rule_wf(r@),
{
    let r = Rule {
        alts: vec![
            Alt {
                pat: vec![Cls::Rng('ก', 'ฮ'), Cls::Ch('\u{0e30}')],
                out: vec![Out::Cap(0), Out::Lit('a')],
            },
        ],
    };
    assert(r@[0].pat =~= vowel_rule_49()[0].pat);
    assert(r@[0].out =~= vowel_rule_49()[0].out);
    assert(r@ =~= vowel_rule_49());
    r
}

/// A consonant of the class and another consonant before ฤ read as the first consonant twice and rue.
pub open spec fn vowel_rule_50() -> Seq<AltSpec> {
    seq![
        AltSpec {
            pat: seq![Cls::RueInitial, Cls::Rng('ก', 'ฮ'), Cls::Ch('ฤ')],
            out: seq![Out::Cap(0), Out::Cap(0), Out::Lit('r'), Out::Lit('u'), Out::Lit('e')],
        },
    ]
}

/// Builds the rule `vowel_rule_50`.
pub fn make_vowel_rule_50() -> (r: Rule)
    ensures
        r@ == vowel_rule_50(),
        rule_wf(r@),
{
    let r = Rule {
        alts: vec![
            Alt {
                pat: vec![Cls::RueInitial, Cls::Rng('ก', 'ฮ'), Cls::Ch('ฤ')],
                out: vec![Out::Cap(0), Out::Cap(0), Out::Lit('r'), Out::Lit('u'), Out::Lit('e')],
            },
        ],
    };
    assert(r@[0].pat =~= vowel_rule_50()[0].pat);
    assert(r@[0].out =~= vowel_rule_50()[0].out);
    assert(r@ =~= vowel_rule_50());
    r
}

/// A consonant of the class and another consonant before ฤ read as the first consonant twice and ri.
pub open spec fn vowel_rule_51() -> Seq<AltSpec> {
    seq![
        AltSpec {
            pat: seq![Cls::RiInitial, Cls::Rng('ก', 'ฮ'), Cls::Ch('ฤ')],
            out: seq![Out::Cap(0), Out::Cap(0), Out::Lit('r'), Out::Lit('i')],
        },
    ]
}

/// Builds the rule `vowel_rule_51`.
pub fn make_vowel_rule_51() -> (r: Rule)
    ensures
        r@ == vowel_rule_51(),
        rule_wf(r@),
{
    let r = Rule {
        alts: vec![
            Alt {
                pat: vec![Cls::RiInitial, Cls::Rng('ก', 'ฮ'), Cls::Ch('ฤ')],
                out: vec![Out::Cap(0), Out::Cap(0), Out::Lit('r'), Out::Lit('i')],
            },
        ],
    };
    assert(r@[0].pat =~= vowel_rule_51()[0].pat);
    assert(r@[0].out =~= vowel_rule_51()[0].out);
    assert(r@ =~= vowel_rule_51());
    r
}

/// The vowel patterns of romanization, applied one after the other in this order.
pub open spec fn vowels_replaced(w: Seq<char>) -> Seq<char> {
    let w = rewrite(vowel_rule_1(), w);
    let w = rewrite(vowel_rule_2(), w);
    let w = rewrite(vowel_rule_3(), w);
    let w = rewrite(vowel_rule_4(), w);
    let w = rewrite(vowel_rule_5(), w);
    let w = rewrite(vowel_rule_6(), w);
    let w = rewrite(vowel_rule_7(), w);
    let w = rewrite(vowel_rule_8(), w);
    let w = rewrite(vowel_rule_9(), w);
    let w = rewrite(vowel_rule_10(), w);
    let w = rewrite(vowel_rule_11(), w);
    let w = rewrite(vowel_rule_12(), w);
    let w = rewrite(vowel_rule_13(), w);
    let w = rewrite(vowel_rule_14(), w);
    let w = rewrite(vowel_rule_15(), w);
    let w = rewrite(vowel_rule_16(), w);
    let w = rewrite(vowel_rule_17(), w);
    let w = rewrite(vowel_rule_18(), w);
    let w = rewrite(vowel_rule_19(), w);
    let w = rewrite(vowel_rule_20(), w);
    let w = rewrite(vowel_rule_21(), w);
    let w = rewrite(vowel_rule_22(), w);
    let w = rewrite(vowel_rule_23(), w);
    let w = rewrite(vowel_rule_24(), w);
    let w = rewrite(vowel_rule_25(), w);
    let w = rewrite(vowel_rule_26(), w);
    let w = rewrite(vowel_rule_27(), w);
    let w = rewrite(vowel_rule_28(), w);
    let w = rewrite(vowel_rule_29(), w);
    let w = rewrite(vowel_rule_30(), w);
    let w = rewrite(vowel_rule_31(), w);
    let w = rewrite(vowel_rule_32(), w);
    let w = rewrite(vowel_rule_33(), w);
    let w = rewrite(vowel_rule_34(), w);
    let w = rewrite(vowel_rule_35(), w);
    let w = rewrite(vowel_rule_36(), w);
    let w = rewrite(vowel_rule_37(), w);
    let w = rewrite(vowel_rule_38(), w);
    let w = rewrite(vowel_rule_39(), w);
    let w = rewrite(vowel_rule_40(), w);
    let w = rewrite(vowel_rule_41(), w);
    let w = rewrite(vowel_rule_42(), w);
    let w = rewrite(vowel_rule_43(), w);
    let w = rewrite(vowel_rule_44(), w);
    let w = rewrite(vowel_rule_45(), w);
    let w = rewrite(vowel_rule_46(), w);
    let w = rewrite(vowel_rule_47(), w);
    let w = rewrite(vowel_rule_48(), w);
    let w = rewrite(vowel_rule_49(), w);
    let w = rewrite(vowel_rule_50(), w);
    let w = rewrite(vowel_rule_51(), w);
    w
}

/// Applies the vowel patterns of romanization to `w`.
pub fn replace_vowels(w: &Vec<char>) -> (r: Vec<char>)
    ensures
        r@ == vowels_replaced(w@),
{
    let w1 = apply_rule(&make_vowel_rule_1(), w);
    let w2 = apply_rule(&make_vowel_rule_2(), &w1);
    let w3 = apply_rule(&make_vowel_rule_3(), &w2);
    let w4 = apply_rule(&make_vowel_rule_4(), &w3);
    let w5 = apply_rule(&make_vowel_rule_5(), &w4);
    let w6 = apply_rule(&make_vowel_rule_6(), &w5);
    let w7 = apply_rule(&make_vowel_rule_7(), &w6);
    let w8 = apply_rule(&make_vowel_rule_8(), &w7);
    let w9 = apply_rule(&make_vowel_rule_9(), &w8);
    let w10 = apply_rule(&make_vowel_rule_10(), &w9);
    let w11 = apply_rule(&make_vowel_rule_11(), &w10);
    let w12 = apply_rule(&make_vowel_rule_12(), &w11);
    let w13 = apply_rule(&make_vowel_rule_13(), &w12);
    let w14 = apply_rule(&make_vowel_rule_14(), &w13);
    let w15 = apply_rule(&make_vowel_rule_15(), &w14);
    let w16 = apply_rule(&make_vowel_rule_16(), &w15);
    let w17 = apply_rule(&make_vowel_rule_17(), &w16);
    let w18 = apply_rule(&make_vowel_rule_18(), &w17);
    let w19 = apply_rule(&make_vowel_rule_19(), &w18);
    let w20 = apply_rule(&make_vowel_rule_20(), &w19);
    let w21 = apply_rule(&make_vowel_rule_21(), &w20);
    let w22 = apply_rule(&make_vowel_rule_22(), &w21);
    let w23 = apply_rule(&make_vowel_rule_23(), &w22);
    let w24 = apply_rule(&make_vowel_rule_24(), &w23);
    let w25 = apply_rule(&make_vowel_rule_25(), &w24);
    let w26 = apply_rule(&make_vowel_rule_26(), &w25);
    let w27 = apply_rule(&make_vowel_rule_27(), &w26);
    let w28 = apply_rule(&make_vowel_rule_28(), &w27);
    let w29 = apply_rule(&make_vowel_rule_29(), &w28);
    let w30 = apply_rule(&make_vowel_rule_30(), &w29);
    let w31 = apply_rule(&make_vowel_rule_31(), &w30);
    let w32 = apply_rule(&make_vowel_rule_32(), &w31);
    let w33 = apply_rule(&make_vowel_rule_33(), &w32);
    let w34 = apply_rule(&make_vowel_rule_34(), &w33);
    let w35 = apply_rule(&make_vowel_rule_35(), &w34);
    let w36 = apply_rule(&make_vowel_rule_36(), &w35);
    let w37 = apply_rule(&make_vowel_rule_37(), &w36);
    let w38 = apply_rule(&make_vowel_rule_38(), &w37);
    let w39 = apply_rule(&make_vowel_rule_39(), &w38);
    let w40 = apply_rule(&make_vowel_rule_40(), &w39);
    let w41 = apply_rule(&make_vowel_rule_41(), &w40);
    let w42 = apply_rule(&make_vowel_rule_42(), &w41);
    let w43 = apply_rule(&make_vowel_rule_43(), &w42);
    let w44 = apply_rule(&make_vowel_rule_44(), &w43);
    let w45 = apply_rule(&make_vowel_rule_45(), &w44);
    let w46 = apply_rule(&make_vowel_rule_46(), &w45);
    let w47 = apply_rule(&make_vowel_rule_47(), &w46);
    let w48 = apply_rule(&make_vowel_rule_48(), &w47);
    let w49 = apply_rule(&make_vowel_rule_49(), &w48);
    let w50 = apply_rule(&make_vowel_rule_50(), &w49);
    let w51 = apply_rule(&make_vowel_rule_51(), &w50);
    w51
}

} // verus!
