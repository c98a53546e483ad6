//! Thai collation, digit conversion, number words and tonemark removal.
use vstd::prelude::*;
use crate::characters::tonemark;
use crate::rewrite::{apply_rule, cls_has, first_alt, instantiate, matches_at, rewrite, rewrite_from};
use crate::rules::{
    lead_swap_rule, make_lead_swap_rule, make_sort_mark_rule, make_tonemark_rule, sort_mark_rule,
    tonemark_rule,
};
use crate::text::{lemma_filter_all, lemma_filter_none, str_chars, string_of};
use crate::tokenize::strings_view;

verus! {

// ---------------------------------------------------------------------------
// Collation
// ---------------------------------------------------------------------------

/// The sort key of a word: each lead vowel เ แ โ ใ ไ moved after the
/// consonant it precedes, then tonemarks, ็ and ์ dropped.
pub open spec fn sort_key(w: Seq<char>) -> Seq<char> {
    rewrite(sort_mark_rule(), rewrite(lead_swap_rule(), w))
}

/// Lexicographic order of character sequences, by code point.
pub open spec fn seq_lt(a: Seq<char>, b: Seq<char>) -> bool
    decreases a.len(),
{
    if a.len() == 0 {
        b.len() > 0
    } else if b.len() == 0 {
        false
    } else if a[0] != b[0] {
        a[0] < b[0]
    } else {
        seq_lt(a.drop_first(), b.drop_first())
    }
}

/// Inserts `x` into `s` after every element whose key is not above its own.
pub open spec fn insert_by_key(x: Seq<char>, s: Seq<Seq<char>>) -> Seq<Seq<char>>
    decreases s.len(),
{
    if s.len() == 0 {
        seq![x]
    } else if seq_lt(sort_key(x), sort_key(s.last())) {
        insert_by_key(x, s.drop_last()).push(s.last())
    } else {
        s.push(x)
    }
}

/// `ws` sorted by key; words with equal keys keep their order.
pub open spec fn sort_by_key(ws: Seq<Seq<char>>) -> Seq<Seq<char>>
    decreases ws.len(),
{
    if ws.len() == 0 {
        Seq::empty()
    } else {
        insert_by_key(ws.last(), sort_by_key(ws.drop_last()))
    }
}

/// The collation of `ws`: sorted by key, then reversed where asked.
pub open spec fn collated(ws: Seq<Seq<char>>, reverse: bool) -> Seq<Seq<char>> {
    if reverse {
        sort_by_key(ws).reverse()
    } else {
        sort_by_key(ws)
    }
}

fn thai_sort_key(word: &Vec<char>) -> (r: Vec<char>)
    ensures
        r@ == sort_key(word@),
{
    let swapped = apply_rule(&make_lead_swap_rule(), word);
    apply_rule(&make_sort_mark_rule(), &swapped)
}

fn char_lt(a: &Vec<char>, b: &Vec<char>) -> (r: bool)
    ensures
        r == seq_lt(a@, b@),
{
    let mut i: usize = 0;
    assert(a@.skip(0) =~= a@);
    assert(b@.skip(0) =~= b@);
    while i < a.len() && i < b.len() && a[i] == b[i]
        invariant
            i <= a@.len(),
            i <= b@.len(),
            seq_lt(a@, b@) == seq_lt(a@.skip(i as int), b@.skip(i as int)),
        decreases a.len() - i,
    {
        assert(a@.skip(i as int).drop_first() =~= a@.skip(i + 1));
        assert(b@.skip(i as int).drop_first() =~= b@.skip(i + 1));
        i = i + 1;
    }
    if i == a.len() {
        i < b.len()
    } else if i == b.len() {
        false
    } else {
        a[i] < b[i]
    }
}

/// Sort strings (almost) according to Thai dictionary order.
///
/// Tonemarks and lead vowels (เ แ โ ใ ไ) are normalized before comparison;
/// words with equal keys keep their order; `reverse` reverses the result.
pub fn collate(words: &[&str], reverse: bool) -> (r: Vec<String>)
    ensures
        strings_view(r@) == collated(words@.map_values(|w: &str| w@), reverse),
{
    let ghost ws = words@.map_values(|w: &str| w@);
    let mut sorted: Vec<Vec<char>> = Vec::new();
    let mut keys: Vec<Vec<char>> = Vec::new();
    let mut i: usize = 0;
    while i < words.len()
        invariant
            i <= words@.len(),
            ws == words@.map_values(|w: &str| w@),
            sorted@.len() == keys@.len(),
            forall|k: int| 0 <= k < keys@.len() ==> #[trigger] keys@[k]@ == sort_key(sorted@[k]@),
            sorted@.map_values(|v: Vec<char>| v@) == sort_by_key(ws.take(i as int)),
        decreases words.len() - i,
    {
        let w = str_chars(words[i]);
        let key = thai_sort_key(&w);
        let ghost before = sorted@.map_values(|v: Vec<char>| v@);
        let mut p = sorted.len();
        assert(before.take(p as int) =~= before);
        assert(before.skip(p as int) =~= Seq::<Seq<char>>::empty());
        assert(insert_by_key(w@, before) + Seq::<Seq<char>>::empty() =~= insert_by_key(w@, before));
        while p > 0 && char_lt(&key, &keys[p - 1])
            invariant
                p <= sorted@.len(),
                sorted@.len() == keys@.len(),
                key@ == sort_key(w@),
                before == sorted@.map_values(|v: Vec<char>| v@),
                forall|k: int| 0 <= k < keys@.len() ==> #[trigger] keys@[k]@ == sort_key(sorted@[k]@),
                insert_by_key(w@, before) == insert_by_key(w@, before.take(p as int)) + before.skip(
                    p as int,
                ),
                forall|k: int| p <= k < sorted@.len() ==> seq_lt(key@, #[trigger] keys@[k]@),
            decreases p,
        {
            proof {
                let t = before.take(p as int);
                assert(t.drop_last() =~= before.take(p - 1));
                assert(t.last() == before[p - 1]);
                assert(before[p - 1] == sorted@[p - 1]@);
                assert(before.take(p - 1).push(before[p - 1]) + before.skip(p as int) =~= before.take(
                    p - 1,
                ) + before.skip(p - 1));
                assert(insert_by_key(w@, t) == insert_by_key(w@, before.take(p - 1)).push(
                    before[p - 1],
                ));
                assert(insert_by_key(w@, before.take(p - 1)).push(before[p - 1]) + before.skip(
                    p as int,
                ) =~= insert_by_key(w@, before.take(p - 1)) + before.skip(p - 1));
            }
            p = p - 1;
        }
        proof {
            let t = before.take(p as int);
            if p > 0 {
                assert(t.last() == sorted@[p - 1]@);
                assert(insert_by_key(w@, t) == t.push(w@));
            } else {
                assert(t =~= Seq::<Seq<char>>::empty());
            }
            assert(insert_by_key(w@, t) =~= t.push(w@));
        }
        let ghost keys0 = keys@;
        let ghost sorted0 = sorted@;
        sorted.insert(p, w);
        keys.insert(p, key);
        proof {
            assert(sorted@.map_values(|v: Vec<char>| v@) =~= before.take(p as int).push(w@)
                + before.skip(p as int));
            assert(ws.take(i + 1).drop_last() =~= ws.take(i as int));
            assert(ws.take(i + 1).last() == w@);
            assert forall|k: int| 0 <= k < keys@.len() implies #[trigger] keys@[k]@ == sort_key(
                sorted@[k]@,
            ) by {
                if k < p {
                    assert(keys@[k] == keys0[k]);
                    assert(sorted@[k] == sorted0[k]);
                } else if k > p {
                    assert(keys@[k] == keys0[k - 1]);
                    assert(sorted@[k] == sorted0[k - 1]);
                }
            }
        }
        i = i + 1;
    }
    assert(ws.take(words@.len() as int) =~= ws);
    let ghost m = sorted@.map_values(|v: Vec<char>| v@);
    let ghost target = if reverse {
        m.reverse()
    } else {
        m
    };
    let mut out: Vec<String> = Vec::new();
    let n = sorted.len();
    let mut k: usize = 0;
    while k < n
        invariant
            n == sorted@.len(),
            m == sorted@.map_values(|v: Vec<char>| v@),
            target == if reverse {
                m.reverse()
            } else {
                m
            },
            k <= n,
            strings_view(out@) == target.take(k as int),
        decreases n - k,
    {
        let idx = if reverse {
            n - 1 - k
        } else {
            k
        };
        let ghost before = strings_view(out@);
        let s = string_of(&sorted[idx]);
        out.push(s);
        proof {
            assert(target[k as int] == m[idx as int]);
            assert(m[idx as int] == sorted@[idx as int]@);
            assert(strings_view(out@) =~= before.push(s@));
            assert(target.take(k + 1) =~= target.take(k as int).push(target[k as int]));
        }
        k = k + 1;
    }
    assert(target.take(n as int) =~= target);
    out
}

proof fn lemma_seq_lt_irreflexive(a: Seq<char>)
    ensures
        !seq_lt(a, a),
    decreases a.len(),
{
    if a.len() > 0 {
        lemma_seq_lt_irreflexive(a.drop_first());
    }
}

proof fn lemma_seq_lt_transitive(a: Seq<char>, b: Seq<char>, c: Seq<char>)
    requires
        seq_lt(a, b),
        seq_lt(b, c),
    ensures
        seq_lt(a, c),
    decreases a.len(),
{
    if a.len() > 0 && a[0] == b[0] && b[0] == c[0] {
        lemma_seq_lt_transitive(a.drop_first(), b.drop_first(), c.drop_first());
    }
}

proof fn lemma_seq_lt_total(a: Seq<char>, b: Seq<char>)
    requires
        a != b,
    ensures
        seq_lt(a, b) || seq_lt(b, a),
    decreases a.len(),
{
    if a.len() > 0 && b.len() > 0 && a[0] == b[0] {
        if a.drop_first() == b.drop_first() {
            assert(a =~= seq![a[0]] + a.drop_first());
            assert(b =~= seq![b[0]] + b.drop_first());
        }
        lemma_seq_lt_total(a.drop_first(), b.drop_first());
    } else if a.len() == 0 && b.len() == 0 {
        assert(a =~= b);
    }
}

/// Words in order of their keys: no word's key comes before that of a word
/// ahead of it.
pub open spec fn sorted_by_key(s: Seq<Seq<char>>) -> bool {
    forall|i: int, j: int| 0 <= i < j < s.len() ==> !seq_lt(sort_key(s[j]), sort_key(s[i]))
}

proof fn lemma_insert_keeps_bound(x: Seq<char>, s: Seq<Seq<char>>, p: spec_fn(Seq<char>) -> bool)
    requires
        p(x),
        forall|m: int| 0 <= m < s.len() ==> p(#[trigger] s[m]),
    ensures
        forall|k: int| 0 <= k < insert_by_key(x, s).len() ==> p(#[trigger] insert_by_key(x, s)[k]),
    decreases s.len(),
{
    if s.len() > 0 && seq_lt(sort_key(x), sort_key(s.last())) {
        lemma_insert_keeps_bound(x, s.drop_last(), p);
        let r = insert_by_key(x, s.drop_last());
        assert forall|k: int| 0 <= k < r.push(s.last()).len() implies p(#[trigger] r.push(s.last())[k]) by {
            if k < r.len() {
                assert(r.push(s.last())[k] == r[k]);
            }
        }
    } else if s.len() > 0 {
        assert forall|k: int| 0 <= k < s.push(x).len() implies p(#[trigger] s.push(x)[k]) by {
            if k < s.len() {
                assert(s.push(x)[k] == s[k]);
            }
        }
    }
}

proof fn lemma_insert_sorted(x: Seq<char>, s: Seq<Seq<char>>)
    requires
        sorted_by_key(s),
    ensures
        sorted_by_key(insert_by_key(x, s)),
        insert_by_key(x, s).to_multiset() == s.to_multiset().insert(x),
    decreases s.len(),
{
    broadcast use vstd::seq_lib::to_multiset_build;
    broadcast use vstd::multiset::group_multiset_axioms;

    if s.len() == 0 {
        assert(seq![x] =~= Seq::<Seq<char>>::empty().push(x));
        assert(s =~= Seq::<Seq<char>>::empty());
    } else {
        let last = s.last();
        let kl = sort_key(last);
        if seq_lt(sort_key(x), kl) {
            let t = s.drop_last();
            assert(sorted_by_key(t)) by {
                assert forall|i: int, j: int| 0 <= i < j < t.len() implies !seq_lt(
                    sort_key(t[j]),
                    sort_key(t[i]),
                ) by {
                    assert(t[i] == s[i] && t[j] == s[j]);
                }
            }
            lemma_insert_sorted(x, t);
            let r = insert_by_key(x, t);
            let p = |y: Seq<char>| !seq_lt(kl, sort_key(y));
            assert forall|m: int| 0 <= m < t.len() implies p(#[trigger] t[m]) by {
                assert(t[m] == s[m]);
                assert(s[s.len() - 1] == last);
            }
            assert(p(x)) by {
                if seq_lt(kl, sort_key(x)) {
                    lemma_seq_lt_transitive(kl, sort_key(x), kl);
                    lemma_seq_lt_irreflexive(kl);
                }
            }
            lemma_insert_keeps_bound(x, t, p);
            let out = r.push(last);
            assert forall|i: int, j: int| 0 <= i < j < out.len() implies !seq_lt(
                sort_key(out[j]),
                sort_key(out[i]),
            ) by {
                assert(out[i] == r[i]);
                if j < r.len() {
                    assert(out[j] == r[j]);
                } else {
                    assert(out[j] == last);
                    assert(p(r[i]));
                }
            }
            assert(t.push(last) =~= s);
            assert(out.to_multiset() =~= s.to_multiset().insert(x));
        } else {
            let out = s.push(x);
            assert forall|i: int, j: int| 0 <= i < j < out.len() implies !seq_lt(
                sort_key(out[j]),
                sort_key(out[i]),
            ) by {
                assert(out[i] == s[i]);
                if j < s.len() {
                    assert(out[j] == s[j]);
                } else {
                    assert(out[j] == x);
                    if seq_lt(sort_key(x), sort_key(s[i])) {
                        if i < s.len() - 1 {
                            assert(!seq_lt(kl, sort_key(s[i])));
                            if sort_key(s[i]) != kl {
                                lemma_seq_lt_total(sort_key(s[i]), kl);
                                lemma_seq_lt_transitive(sort_key(x), sort_key(s[i]), kl);
                            }
                        }
                    }
                }
            }
        }
    }
}

proof fn lemma_sort_by_key(ws: Seq<Seq<char>>)
    ensures
        sorted_by_key(sort_by_key(ws)),
        sort_by_key(ws).to_multiset() == ws.to_multiset(),
    decreases ws.len(),
{
    broadcast use vstd::seq_lib::to_multiset_build;

    if ws.len() == 0 {
        assert(sort_by_key(ws) =~= ws);
    } else {
        lemma_sort_by_key(ws.drop_last());
        lemma_insert_sorted(ws.last(), sort_by_key(ws.drop_last()));
        assert(ws.drop_last().push(ws.last()) =~= ws);
    }
}

/// Collation puts the words in order of their keys (backwards where
/// `reverse` is set) and keeps every word, as many times as it was given.
pub proof fn lemma_collate_sorted_permutation(ws: Seq<Seq<char>>, reverse: bool)
    ensures
        sorted_by_key(collated(ws, false)),
        collated(ws, true) == collated(ws, false).reverse(),
        collated(ws, reverse).to_multiset() == ws.to_multiset(),
{
    lemma_sort_by_key(ws);
    sort_by_key(ws).lemma_reverse_to_multiset();
}

// ---------------------------------------------------------------------------
// Digit conversion
// ---------------------------------------------------------------------------

/// The Arabic digit for a Thai digit; any other character unchanged.
pub open spec fn thai_to_arabic_char(c: char) -> char {
    match c {
        '๐' => '0',
        '๑' => '1',
        '๒' => '2',
        '๓' => '3',
        '๔' => '4',
        '๕' => '5',
        '๖' => '6',
        '๗' => '7',
        '๘' => '8',
        '๙' => '9',
        _ => c,
    }
}

/// The Thai digit for an Arabic digit; any other character unchanged.
pub open spec fn arabic_to_thai_char(c: char) -> char {
    match c {
        '0' => '๐',
        '1' => '๑',
        '2' => '๒',
        '3' => '๓',
        '4' => '๔',
        '5' => '๕',
        '6' => '๖',
        '7' => '๗',
        '8' => '๘',
        '9' => '๙',
        _ => c,
    }
}

/// `t` with each Thai digit replaced by the Arabic one.
pub open spec fn arabic_digits_of(t: Seq<char>) -> Seq<char> {
    t.map_values(|c: char| thai_to_arabic_char(c))
}

/// `t` with each Arabic digit replaced by the Thai one.
pub open spec fn thai_digits_of(t: Seq<char>) -> Seq<char> {
    t.map_values(|c: char| arabic_to_thai_char(c))
}

fn thai_to_arabic(c: char) -> (r: char)
    ensures
        r == thai_to_arabic_char(c),
{
    match c {
        '๐' => '0',
        '๑' => '1',
        '๒' => '2',
        '๓' => '3',
        '๔' => '4',
        '๕' => '5',
        '๖' => '6',
        '๗' => '7',
        '๘' => '8',
        '๙' => '9',
        _ => c,
    }
}

fn arabic_to_thai(c: char) -> (r: char)
    ensures
        r == arabic_to_thai_char(c),
{
    match c {
        '0' => '๐',
        '1' => '๑',
        '2' => '๒',
        '3' => '๓',
        '4' => '๔',
        '5' => '๕',
        '6' => '๖',
        '7' => '๗',
        '8' => '๘',
        '9' => '๙',
        _ => c,
    }
}

/// Convert Thai digit characters (๐-๙) to Arabic digits (0-9).
pub fn thai_digit_to_arabic_digit(text: &str) -> (r: String)
    ensures
        r@ == arabic_digits_of(text@),
{
    let v = str_chars(text);
    let mut out: Vec<char> = Vec::new();
    let mut i: usize = 0;
    while i < v.len()
        invariant
            i <= v@.len(),
            out@ == v@.take(i as int).map_values(|c: char| thai_to_arabic_char(c)),
        decreases v.len() - i,
    {
        out.push(thai_to_arabic(v[i]));
        i = i + 1;
        assert(out@ =~= v@.take(i as int).map_values(|c: char| thai_to_arabic_char(c)));
    }
    assert(v@.take(v@.len() as int) =~= v@);
    string_of(&out)
}

/// Convert Arabic digit characters (0-9) to Thai digits (๐-๙).
pub fn arabic_digit_to_thai_digit(text: &str) -> (r: String)
    ensures
        r@ == thai_digits_of(text@),
{
    let v = str_chars(text);
    let mut out: Vec<char> = Vec::new();
    let mut i: usize = 0;
    while i < v.len()
        invariant
            i <= v@.len(),
            out@ == v@.take(i as int).map_values(|c: char| arabic_to_thai_char(c)),
        decreases v.len() - i,
    {
        out.push(arabic_to_thai(v[i]));
        i = i + 1;
        assert(out@ =~= v@.take(i as int).map_values(|c: char| arabic_to_thai_char(c)));
    }
    assert(v@.take(v@.len() as int) =~= v@);
    string_of(&out)
}

/// Whether `c` is a Thai digit ๐..๙.
pub open spec fn thai_digit(c: char) -> bool {
    '๐' <= c && c <= '๙'
}

/// Whether `c` is an Arabic digit 0..9.
pub open spec fn arabic_digit(c: char) -> bool {
    '0' <= c && c <= '9'
}

/// Converting to Arabic digits leaves no Thai digit, and converting to Thai
/// digits leaves no Arabic digit.
pub proof fn lemma_digits_converted(t: Seq<char>)
    ensures
        forall|k: int| 0 <= k < t.len() ==> !thai_digit(#[trigger] arabic_digits_of(t)[k]),
        forall|k: int| 0 <= k < t.len() ==> !arabic_digit(#[trigger] thai_digits_of(t)[k]),
{
}

/// Text without Thai digits comes back unchanged from a conversion to Thai
/// digits and back; text without Arabic digits, from a conversion to Arabic
/// digits and back.
pub proof fn lemma_digits_round_trip(t: Seq<char>)
    ensures
        (forall|k: int| 0 <= k < t.len() ==> !thai_digit(#[trigger] t[k])) ==> arabic_digits_of(
            thai_digits_of(t),
        ) == t,
        (forall|k: int| 0 <= k < t.len() ==> !arabic_digit(#[trigger] t[k])) ==> thai_digits_of(
            arabic_digits_of(t),
        ) == t,
{
    let a = arabic_digits_of(thai_digits_of(t));
    let b = thai_digits_of(arabic_digits_of(t));
    if forall|k: int| 0 <= k < t.len() ==> !thai_digit(#[trigger] t[k]) {
        assert(a =~= t);
    }
    if forall|k: int| 0 <= k < t.len() ==> !arabic_digit(#[trigger] t[k]) {
        assert(b =~= t);
    }
}

// ---------------------------------------------------------------------------
// Tonemark removal
// ---------------------------------------------------------------------------

proof fn lemma_tonemark_rewrite_from(s: Seq<char>, i: int)
    requires
        0 <= i <= s.len(),
    ensures
        rewrite_from(tonemark_rule(), s, i) == s.skip(i).filter(|c: char| !tonemark(c)),
    decreases s.len() - i,
{
    let p = |c: char| !tonemark(c);
    let r = tonemark_rule();
    if i == s.len() {
        assert(s.skip(i) =~= Seq::<char>::empty());
        lemma_filter_none(s.skip(i), p);
    } else {
        lemma_tonemark_rewrite_from(s, i + 1);
        let c = s[i];
        assert(s.skip(i) =~= seq![c] + s.skip(i + 1));
        Seq::filter_distributes_over_add(seq![c], s.skip(i + 1), p);
        assert(r.len() == 1);
        assert(first_alt(r, s, i, 1) is None);
        if tonemark(c) {
            assert(matches_at(r[0].pat, s, i));
            assert(first_alt(r, s, i, 0) == Some(0int));
            assert(instantiate(r[0].out, s, i) =~= Seq::<char>::empty());
            lemma_filter_none(seq![c], p);
            assert(rewrite_from(r, s, i) =~= rewrite_from(r, s, i + 1));
        } else {
            assert(!cls_has(r[0].pat[0], s[i + 0]));
            assert(!matches_at(r[0].pat, s, i));
            assert(first_alt(r, s, i, 0) is None);
            lemma_filter_all(seq![c], p);
        }
    }
}

/// Remove Thai tonemarks from text.
pub fn remove_tonemark(text: &str) -> (r: String)
    ensures
        r@ == rewrite(tonemark_rule(), text@),
        r@ == text@.filter(|c: char| !tonemark(c)),
{
    let v = str_chars(text);
    let out = apply_rule(&make_tonemark_rule(), &v);
    proof {
        lemma_tonemark_rewrite_from(v@, 0);
        assert(v@.skip(0) =~= v@);
    }
    string_of(&out)
}

} // verus!
