//! Thai tokenization: Thai Character Clusters, sentences, and NewMM words.
use vstd::prelude::*;
use vstd::seq_lib::lemma_flatten_concat;
use crate::characters::thai_block;
use crate::dictionary::{default_dictionary, default_trie};
use crate::newmm::{lemma_newmm_cover, newmm_segment, newmm_tokens};
use crate::tcc::{lemma_tcc_unit_bounds, make_tcc_patterns, tcc_unit, tcc_unit_at};
use crate::text::{lemma_filter_all, lemma_filter_none, char_is_uppercase, char_is_whitespace, str_chars, string_of_range, unicode_uppercase, unicode_white_space};
use crate::trie::{build_trie, word_set};

verus! {

/// The contents of a list of strings.
pub open spec fn strings_view(v: Seq<String>) -> Seq<Seq<char>> {
    v.map_values(|x: String| x@)
}

/// The cluster tokens of `s` from position `i` on.
pub open spec fn tcc_tokens_from(s: Seq<char>, i: int) -> Seq<Seq<char>>
    decreases s.len() - i,
{
    if i < 0 || i >= s.len() {
        Seq::empty()
    } else {
        let u = tcc_unit(s, i);
        if u >= 1 && i + u <= s.len() {
            seq![s.subrange(i, i + u)] + tcc_tokens_from(s, i + u)
        } else {
            Seq::empty()
        }
    }
}

/// The Thai Character Cluster tokens of `s`: at each position the cluster
/// that starts there, or the single character where none does.
pub open spec fn tcc_tokens(s: Seq<char>) -> Seq<Seq<char>> {
    tcc_tokens_from(s, 0)
}

/// Every token is non-empty.
pub open spec fn all_nonempty(t: Seq<Seq<char>>) -> bool {
    forall|k: int| 0 <= k < t.len() ==> (#[trigger] t[k]).len() > 0
}

proof fn lemma_tcc_tokens_from(s: Seq<char>, i: int)
    requires
        0 <= i <= s.len(),
    ensures
        tcc_tokens_from(s, i).flatten() == s.skip(i),
        all_nonempty(tcc_tokens_from(s, i)),
    decreases s.len() - i,
{
    if i < s.len() {
        lemma_tcc_unit_bounds(s, i);
        let u = tcc_unit(s, i);
        lemma_tcc_tokens_from(s, i + u);
        let rest = tcc_tokens_from(s, i + u);
        let t = tcc_tokens_from(s, i);
        assert(t == seq![s.subrange(i, i + u)] + rest);
        assert(t.drop_first() =~= rest);
        assert(s.skip(i) =~= s.subrange(i, i + u) + s.skip(i + u));
        assert forall|k: int| 0 <= k < t.len() implies (#[trigger] t[k]).len() > 0 by {
            if k > 0 {
                assert(t[k] == rest[k - 1]);
            }
        }
    } else {
        assert(s.skip(i) =~= Seq::<char>::empty());
    }
}

/// The cluster tokens of a text concatenate to the text, and none is empty.
pub proof fn lemma_tcc_tokens_cover(s: Seq<char>)
    ensures
        tcc_tokens(s).flatten() == s,
        all_nonempty(tcc_tokens(s)),
{
    lemma_tcc_tokens_from(s, 0);
    assert(s.skip(0) =~= s);
}

/// The cluster tokens of `v`, as character vectors.
pub fn tcc_units(v: &Vec<char>) -> (r: Vec<String>)
    ensures
        strings_view(r@) == tcc_tokens(v@),
{
    let ps = make_tcc_patterns();
    let mut r: Vec<String> = Vec::new();
    let n = v.len();
    let mut i: usize = 0;
    while i < n
        invariant
            n == v@.len(),
            i <= n,
            crate::tcc::patterns_view(ps@) == crate::tcc::tcc_patterns(),
            strings_view(r@) + tcc_tokens_from(v@, i as int) == tcc_tokens(v@),
        decreases n - i,
    {
        let u = tcc_unit_at(&ps, v, i);
        let tok = string_of_range(v, i, i + u);
        let ghost before = strings_view(r@);
        r.push(tok);
        assert(strings_view(r@) =~= before.push(v@.subrange(i as int, (i + u) as int)));
        assert(strings_view(r@) + tcc_tokens_from(v@, (i + u) as int) =~= before
            + tcc_tokens_from(v@, i as int));
        i = i + u;
    }
    r
}

/// Tokenize Thai text into Thai Character Clusters (TCC).
///
/// A Thai Character Cluster (TCC) is the smallest indivisible unit for
/// Thai text processing, roughly corresponding to a syllable nucleus.
pub fn tcc_tokenize(text: &str) -> (r: Vec<String>)
    ensures
        strings_view(r@) == tcc_tokens(text@),
        strings_view(r@).flatten() == text@,
        all_nonempty(strings_view(r@)),
{
    let v = str_chars(text);
    let r = tcc_units(&v);
    proof {
        lemma_tcc_tokens_cover(text@);
    }
    r
}

/// Tokenize Thai text into syllables (alias for [`tcc_tokenize`]).
pub fn syllable_tokenize(text: &str) -> (r: Vec<String>)
    ensures
        strings_view(r@) == tcc_tokens(text@),
{
    tcc_tokenize(text)
}

// ---------------------------------------------------------------------------
// NewMM word tokenizer
// ---------------------------------------------------------------------------

/// A space or a tab.
pub open spec fn blank(c: char) -> bool {
    c == ' ' || c == '\t'
}

/// A line feed or a carriage return.
pub open spec fn line_break(c: char) -> bool {
    c == '\n' || c == '\r'
}

/// Neither blank, nor a line break, nor Thai.
pub open spec fn other_char(c: char) -> bool {
    !blank(c) && !line_break(c) && !thai_block(c)
}

/// The kinds of runs: 0 blanks, 1 Thai, 2 other characters.
pub open spec fn in_kind(c: char, kind: u8) -> bool {
    if kind == 0 {
        blank(c)
    } else if kind == 1 {
        thai_block(c)
    } else {
        other_char(c)
    }
}

/// The end of the run of characters of the kind that starts at `i`.
pub open spec fn span(t: Seq<char>, i: int, kind: u8) -> int
    decreases t.len() - i,
{
    if 0 <= i < t.len() && in_kind(t[i], kind) {
        span(t, i + 1, kind)
    } else {
        i
    }
}

/// The word tokens of `t` from `i` on: runs of blanks (kept or not), line
/// breaks (kept or not), Thai runs segmented by NewMM with dictionary `d`,
/// and runs of other characters as they are.
pub open spec fn word_tokens_from(t: Seq<char>, d: Set<Seq<char>>, keep: bool, i: int) -> Seq<
    Seq<char>,
>
    decreases t.len() - i,
{
    if i < 0 || i >= t.len() {
        Seq::empty()
    } else {
        let c = t[i];
        if blank(c) {
            let e = span(t, i, 0);
            if i < e <= t.len() {
                (if keep {
                    seq![t.subrange(i, e)]
                } else {
                    Seq::empty()
                }) + word_tokens_from(t, d, keep, e)
            } else {
                Seq::empty()
            }
        } else if line_break(c) {
            (if keep {
                seq![seq![c]]
            } else {
                Seq::empty()
            }) + word_tokens_from(t, d, keep, i + 1)
        } else if thai_block(c) {
            let e = span(t, i, 1);
            if i < e <= t.len() {
                newmm_tokens(t.subrange(i, e), d) + word_tokens_from(t, d, keep, e)
            } else {
                Seq::empty()
            }
        } else {
            let e = span(t, i, 2);
            if i < e <= t.len() {
                seq![t.subrange(i, e)] + word_tokens_from(t, d, keep, e)
            } else {
                Seq::empty()
            }
        }
    }
}

/// The word tokens of `t` with dictionary `d`.
pub open spec fn word_tokens(t: Seq<char>, d: Set<Seq<char>>, keep: bool) -> Seq<Seq<char>> {
    word_tokens_from(t, d, keep, 0)
}

/// The dictionary that `word_tokenize` uses: the given words, or the
/// built-in list.
pub open spec fn dictionary_of(custom_dict: Option<&[&str]>) -> Set<Seq<char>> {
    match custom_dict {
        Some(ws) => word_set(ws@),
        None => default_dictionary(),
    }
}

proof fn lemma_span(t: Seq<char>, i: int, kind: u8)
    requires
        0 <= i <= t.len(),
    ensures
        i <= span(t, i, kind) <= t.len(),
        forall|k: int| i <= k < span(t, i, kind) ==> in_kind(#[trigger] t[k], kind),
        span(t, i, kind) < t.len() ==> !in_kind(t[span(t, i, kind)], kind),
    decreases t.len() - i,
{
    if i < t.len() && in_kind(t[i], kind) {
        lemma_span(t, i + 1, kind);
    }
}

fn char_in_kind(c: char, kind: u8) -> (r: bool)
    ensures
        r == in_kind(c, kind),
{
    if kind == 0 {
        c == ' ' || c == '\t'
    } else if kind == 1 {
        '\u{0e00}' <= c && c <= '\u{0e7f}'
    } else {
        !(c == ' ' || c == '\t' || c == '\n' || c == '\r' || ('\u{0e00}' <= c && c <= '\u{0e7f}'))
    }
}

fn span_end(v: &Vec<char>, i: usize, kind: u8) -> (e: usize)
    requires
        i <= v@.len(),
    ensures
        e == span(v@, i as int, kind),
{
    let n = v.len();
    let mut e = i;
    while e < n && char_in_kind(v[e], kind)
        invariant
            i <= e <= n,
            n == v@.len(),
            span(v@, i as int, kind) == span(v@, e as int, kind),
        decreases n - e,
    {
        e = e + 1;
    }
    e
}

/// Tokenize text into words with the NewMM (Maximum Matching) algorithm.
///
/// Thai runs are segmented with the dictionary (`custom_dict`, or the
/// built-in word list where it is `None`) into the fewest pieces, each a
/// dictionary word or a character cluster; runs of other characters stay
/// whole; runs of spaces and tabs, and line breaks, are tokens of their own
/// when `keep_whitespace` is set and are dropped otherwise.
pub fn word_tokenize(text: &str, custom_dict: Option<&[&str]>, keep_whitespace: bool) -> (r: Vec<
    String,
>)
    requires
        text@.len() < usize::MAX,
    ensures
        strings_view(r@) == word_tokens(text@, dictionary_of(custom_dict), keep_whitespace),
{
    let ghost d = dictionary_of(custom_dict);
    let trie = match custom_dict {
        Some(ws) => build_trie(ws),
        None => default_trie(),
    };
    let ps = make_tcc_patterns();
    let v = str_chars(text);
    let n = v.len();
    let mut result: Vec<String> = Vec::new();
    let mut i: usize = 0;
    while i < n
        invariant
            n == v@.len(),
            n < usize::MAX,
            v@ == text@,
            i <= n,
            trie.wf(),
            trie@ == d,
            crate::tcc::patterns_view(ps@) == crate::tcc::tcc_patterns(),
            strings_view(result@) + word_tokens_from(v@, d, keep_whitespace, i as int)
                == word_tokens(v@, d, keep_whitespace),
        decreases n - i,
    {
        let ch = v[i];
        let ghost before = strings_view(result@);
        if ch == ' ' || ch == '\t' {
            let e = span_end(&v, i, 0);
            proof {
                lemma_span(v@, i as int, 0);
            }
            if keep_whitespace {
                result.push(string_of_range(&v, i, e));
            }
            assert(strings_view(result@) + word_tokens_from(v@, d, keep_whitespace, e as int)
                =~= before + word_tokens_from(v@, d, keep_whitespace, i as int));
            i = e;
        } else if ch == '\n' || ch == '\r' {
            if keep_whitespace {
                result.push(string_of_range(&v, i, i + 1));
                assert(v@.subrange(i as int, i + 1) =~= seq![ch]);
            }
            assert(strings_view(result@) + word_tokens_from(v@, d, keep_whitespace, i + 1)
                =~= before + word_tokens_from(v@, d, keep_whitespace, i as int));
            i = i + 1;
        } else if '\u{0e00}' <= ch && ch <= '\u{0e7f}' {
            let e = span_end(&v, i, 1);
            proof {
                lemma_span(v@, i as int, 1);
            }
            let mut run: Vec<char> = Vec::new();
            crate::text::extend_range(&mut run, &v, i, e);
            let mut seg = newmm_segment(&run, &trie, &ps);
            result.append(&mut seg);
            assert(strings_view(result@) + word_tokens_from(v@, d, keep_whitespace, e as int)
                =~= before + word_tokens_from(v@, d, keep_whitespace, i as int));
            i = e;
        } else {
            let e = span_end(&v, i, 2);
            proof {
                lemma_span(v@, i as int, 2);
            }
            result.push(string_of_range(&v, i, e));
            assert(strings_view(result@) + word_tokens_from(v@, d, keep_whitespace, e as int)
                =~= before + word_tokens_from(v@, d, keep_whitespace, i as int));
            i = e;
        }
    }
    result
}

// ---------------------------------------------------------------------------
// Sentence tokenizer
// ---------------------------------------------------------------------------

/// The first position from `i` on that does not hold white space.
pub open spec fn trim_start_at(s: Seq<char>, i: int) -> int
    decreases s.len() - i,
{
    if 0 <= i < s.len() && unicode_white_space(s[i]) {
        trim_start_at(s, i + 1)
    } else {
        i
    }
}

/// The end of `s[lo..j]` without its trailing white space.
pub open spec fn trim_end_at(s: Seq<char>, lo: int, j: int) -> int
    decreases j - lo,
{
    if lo < j && unicode_white_space(s[j - 1]) {
        trim_end_at(s, lo, j - 1)
    } else {
        j
    }
}

/// `s` without leading and trailing white space.
pub open spec fn trim(s: Seq<char>) -> Seq<char> {
    let a = trim_start_at(s, 0);
    s.subrange(a, trim_end_at(s, a, s.len() as int))
}

/// The sentence `seg` trimmed, where anything is left of it.
pub open spec fn emit(seg: Seq<char>) -> Seq<Seq<char>> {
    if trim(seg).len() > 0 {
        seq![trim(seg)]
    } else {
        Seq::empty()
    }
}

/// `.`, `!` or `?`.
pub open spec fn sentence_end(c: char) -> bool {
    c == '.' || c == '!' || c == '?'
}

/// Whether a sentence ends after `c`, followed by `next` and then `after`
/// (`after_upper` telling whether `after` is an uppercase letter): `c` is
/// `.`, `!` or `?`, `next` a space, and `after` uppercase or Thai.
pub open spec fn breaks_after(c: char, next: char, after: char, after_upper: bool) -> bool {
    sentence_end(c) && next == ' ' && (after_upper || thai_block(after))
}

/// Decides whether a sentence ends after `c`, given the two characters that
/// follow and whether the second of them is an uppercase letter.
pub fn sentence_break(c: char, next: char, after: char, after_upper: bool) -> (r: bool)
    ensures
        r == breaks_after(c, next, after, after_upper),
{
    (c == '.' || c == '!' || c == '?') && next == ' ' && (after_upper || ('\u{0e00}' <= after
        && after <= '\u{0e7f}'))
}

/// The Thai section markers ๚ ๛ and the abbreviation sign ฯ.
pub open spec fn thai_sentence_end(c: char) -> bool {
    c == '\u{0e5a}' || c == '\u{0e5b}' || c == '\u{0e2f}'
}

/// The first position from `i` on that does not hold a space, or (where
/// `breaks` is set) a line break.
pub open spec fn skip_from(t: Seq<char>, i: int, breaks: bool) -> int
    decreases t.len() - i,
{
    if 0 <= i < t.len() && (t[i] == ' ' || (breaks && line_break(t[i]))) {
        skip_from(t, i + 1, breaks)
    } else {
        i
    }
}

/// The first position from `i` on that does not hold a line break.
pub open spec fn skip_breaks(t: Seq<char>, i: int) -> int
    decreases t.len() - i,
{
    if 0 <= i < t.len() && line_break(t[i]) {
        skip_breaks(t, i + 1)
    } else {
        i
    }
}

/// The sentences of `t` from position `i` on, the current one having begun
/// at `start`.
pub open spec fn sentences_from(t: Seq<char>, i: int, start: int) -> Seq<Seq<char>>
    decreases t.len() - i,
{
    if i < 0 || start < 0 || start > i {
        Seq::empty()
    } else if i >= t.len() {
        if start < t.len() {
            emit(t.subrange(start, t.len() as int))
        } else {
            Seq::empty()
        }
    } else {
        let c = t[i];
        if i + 2 < t.len() && breaks_after(c, t[i + 1], t[i + 2], unicode_uppercase(t[i + 2])) {
            let k = skip_from(t, i + 2, false);
            if i < k <= t.len() {
                emit(t.subrange(start, i + 1)) + sentences_from(t, k, k)
            } else {
                Seq::empty()
            }
        } else if thai_sentence_end(c) {
            let k = skip_from(t, i + 1, true);
            if i < k <= t.len() {
                emit(t.subrange(start, i + 1)) + sentences_from(t, k, k)
            } else {
                Seq::empty()
            }
        } else if line_break(c) {
            let k = skip_breaks(t, i + 1);
            if i < k <= t.len() {
                emit(t.subrange(start, i)) + sentences_from(t, k, k)
            } else {
                Seq::empty()
            }
        } else {
            sentences_from(t, i + 1, start)
        }
    }
}

/// The sentences of `t`.
pub open spec fn sentences(t: Seq<char>) -> Seq<Seq<char>> {
    sentences_from(t, 0, 0)
}

proof fn lemma_skip_from(t: Seq<char>, i: int, breaks: bool)
    requires
        0 <= i <= t.len(),
    ensures
        i <= skip_from(t, i, breaks) <= t.len(),
    decreases t.len() - i,
{
    if i < t.len() && (t[i] == ' ' || (breaks && line_break(t[i]))) {
        lemma_skip_from(t, i + 1, breaks);
    }
}

proof fn lemma_skip_breaks(t: Seq<char>, i: int)
    requires
        0 <= i <= t.len(),
    ensures
        i <= skip_breaks(t, i) <= t.len(),
    decreases t.len() - i,
{
    if i < t.len() && line_break(t[i]) {
        lemma_skip_breaks(t, i + 1);
    }
}

fn skip_spaces(v: &Vec<char>, i: usize, breaks: bool) -> (k: usize)
    requires
        i <= v@.len(),
    ensures
        k == skip_from(v@, i as int, breaks),
        i <= k <= v@.len(),
{
    let n = v.len();
    let mut k = i;
    while k < n && (v[k] == ' ' || (breaks && (v[k] == '\n' || v[k] == '\r')))
        invariant
            i <= k <= n,
            n == v@.len(),
            skip_from(v@, i as int, breaks) == skip_from(v@, k as int, breaks),
        decreases n - k,
    {
        k = k + 1;
    }
    k
}

fn skip_line_breaks(v: &Vec<char>, i: usize) -> (k: usize)
    requires
        i <= v@.len(),
    ensures
        k == skip_breaks(v@, i as int),
        i <= k <= v@.len(),
{
    let n = v.len();
    let mut k = i;
    while k < n && (v[k] == '\n' || v[k] == '\r')
        invariant
            i <= k <= n,
            n == v@.len(),
            skip_breaks(v@, i as int) == skip_breaks(v@, k as int),
        decreases n - k,
    {
        k = k + 1;
    }
    k
}

/// `v[lo..hi]` without leading and trailing white space.
fn trimmed(v: &Vec<char>, lo: usize, hi: usize) -> (r: String)
    requires
        lo <= hi <= v@.len(),
    ensures
        r@ == trim(v@.subrange(lo as int, hi as int)),
{
    let ghost s = v@.subrange(lo as int, hi as int);
    let mut a = lo;
    while a < hi && char_is_whitespace(v[a])
        invariant
            lo <= a <= hi <= v@.len(),
            s == v@.subrange(lo as int, hi as int),
            trim_start_at(s, 0) == trim_start_at(s, a - lo),
        decreases hi - a,
    {
        assert(s[a - lo] == v@[a as int]);
        a = a + 1;
    }
    assert(trim_start_at(s, a - lo) == a - lo);
    let mut b = hi;
    while b > a && char_is_whitespace(v[b - 1])
        invariant
            lo <= a <= b <= hi <= v@.len(),
            s == v@.subrange(lo as int, hi as int),
            trim_start_at(s, 0) == a - lo,
            trim_end_at(s, a - lo, hi - lo) == trim_end_at(s, a - lo, b - lo),
        decreases b - a,
    {
        assert(s[b - 1 - lo] == v@[b - 1]);
        b = b - 1;
    }
    let r = string_of_range(v, a, b);
    assert(s.subrange(a - lo, b - lo) =~= v@.subrange(a as int, b as int));
    r
}

/// Appends the trimmed sentence `v[lo..hi]`, where anything is left of it.
fn push_sentence(out: &mut Vec<String>, v: &Vec<char>, lo: usize, hi: usize)
    requires
        lo <= hi <= v@.len(),
    ensures
        strings_view(final(out)@) == strings_view(old(out)@) + emit(v@.subrange(lo as int, hi as int)),
{
    let seg = trimmed(v, lo, hi);
    let ghost before = strings_view(out@);
    if seg.as_str().unicode_len() > 0 {
        out.push(seg);
        assert(strings_view(out@) =~= before + emit(v@.subrange(lo as int, hi as int)));
    } else {
        assert(strings_view(out@) =~= before + emit(v@.subrange(lo as int, hi as int)));
    }
}

/// Split text into sentences.
///
/// Splits after `.`, `!` or `?` followed by a space and a capital letter or a
/// Thai character, after the Thai sentence-end markers ๚ ๛ ฯ, and at line
/// breaks; each sentence is trimmed and empty ones are dropped.
pub fn sent_tokenize(text: &str) -> (r: Vec<String>)
    ensures
        strings_view(r@) == sentences(text@),
{
    let v = str_chars(text);
    let n = v.len();
    let mut out: Vec<String> = Vec::new();
    let mut start: usize = 0;
    let mut i: usize = 0;
    while i < n
        invariant
            n == v@.len(),
            v@ == text@,
            start <= i <= n,
            strings_view(out@) + sentences_from(v@, i as int, start as int) == sentences(v@),
        decreases n - i,
    {
        let ch = v[i];
        let ghost before = strings_view(out@);
        let ghost rest = sentences_from(v@, i as int, start as int);
        let brk = if n - i > 2 {
            let after_upper = char_is_uppercase(v[i + 2]);
            sentence_break(ch, v[i + 1], v[i + 2], after_upper)
        } else {
            false
        };
        if brk {
            push_sentence(&mut out, &v, start, i + 1);
            let k = skip_spaces(&v, i + 2, false);
            assert(strings_view(out@) + sentences_from(v@, k as int, k as int) =~= before + rest);
            i = k;
            start = k;
        } else if ch == '\u{0e5a}' || ch == '\u{0e5b}' || ch == '\u{0e2f}' {
            push_sentence(&mut out, &v, start, i + 1);
            let k = skip_spaces(&v, i + 1, true);
            assert(strings_view(out@) + sentences_from(v@, k as int, k as int) =~= before + rest);
            i = k;
            start = k;
        } else if ch == '\n' || ch == '\r' {
            push_sentence(&mut out, &v, start, i);
            let k = skip_line_breaks(&v, i + 1);
            assert(strings_view(out@) + sentences_from(v@, k as int, k as int) =~= before + rest);
            i = k;
            start = k;
        } else {
            i = i + 1;
        }
    }
    if start < n {
        push_sentence(&mut out, &v, start, n);
    } else {
        assert(sentences_from(v@, i as int, start as int) =~= Seq::<Seq<char>>::empty());
    }
    assert(strings_view(out@) =~= sentences(v@));
    out
}

// ---------------------------------------------------------------------------
// Laws of the tokenizers
// ---------------------------------------------------------------------------

/// The characters that word tokens keep: all of them where whitespace is
/// kept, else all but spaces, tabs and line breaks.
pub open spec fn word_char(keep: bool) -> spec_fn(char) -> bool {
    |c: char| keep || !(blank(c) || line_break(c))
}

proof fn lemma_word_tokens_from_cover(t: Seq<char>, d: Set<Seq<char>>, keep: bool, i: int)
    requires
        0 <= i <= t.len(),
    ensures
        word_tokens_from(t, d, keep, i).flatten() == t.skip(i).filter(word_char(keep)),
    decreases t.len() - i,
{
    let p = word_char(keep);
    if i == t.len() {
        assert(t.skip(i) =~= Seq::<char>::empty());
    } else {
        let c = t[i];
        let kind: u8 = if blank(c) {
            0
        } else if thai_block(c) {
            1
        } else {
            2
        };
        if line_break(c) {
            lemma_word_tokens_from_cover(t, d, keep, i + 1);
            assert(t.skip(i) =~= seq![c] + t.skip(i + 1));
            Seq::filter_distributes_over_add(seq![c], t.skip(i + 1), p);
            let head: Seq<Seq<char>> = if keep {
                seq![seq![c]]
            } else {
                Seq::empty()
            };
            lemma_flatten_concat(head, word_tokens_from(t, d, keep, i + 1));
            if keep {
                lemma_filter_all(seq![c], p);
                seq![seq![c]].lemma_flatten_one_element();
            } else {
                lemma_filter_none(seq![c], p);
            }
        } else {
            lemma_span(t, i, kind);
            let e = span(t, i, kind);
            lemma_word_tokens_from_cover(t, d, keep, e);
            let run = t.subrange(i, e);
            assert(t.skip(i) =~= run + t.skip(e));
            Seq::filter_distributes_over_add(run, t.skip(e), p);
            if kind == 0 {
                let head: Seq<Seq<char>> = if keep {
                    seq![run]
                } else {
                    Seq::empty()
                };
                lemma_flatten_concat(head, word_tokens_from(t, d, keep, e));
                if keep {
                    lemma_filter_all(run, p);
                    seq![run].lemma_flatten_one_element();
                } else {
                    assert forall|k: int| 0 <= k < run.len() implies !p(#[trigger] run[k]) by {
                        assert(in_kind(t[i + k], kind));
                    }
                    lemma_filter_none(run, p);
                }
            } else {
                assert forall|k: int| 0 <= k < run.len() implies p(#[trigger] run[k]) by {
                    assert(in_kind(t[i + k], kind));
                }
                lemma_filter_all(run, p);
                if kind == 1 {
                    lemma_newmm_cover(run, d);
                    lemma_flatten_concat(newmm_tokens(run, d), word_tokens_from(t, d, keep, e));
                } else {
                    seq![run].lemma_flatten_one_element();
                    lemma_flatten_concat(seq![run], word_tokens_from(t, d, keep, e));
                }
            }
        }
    }
}

/// The word tokens concatenate to the text where whitespace is kept, and
/// otherwise to the text with its spaces, tabs and line breaks taken out.
pub proof fn lemma_word_tokens_cover(t: Seq<char>, d: Set<Seq<char>>, keep: bool)
    ensures
        word_tokens(t, d, keep).flatten() == t.filter(word_char(keep)),
        keep ==> word_tokens(t, d, keep).flatten() == t,
{
    lemma_word_tokens_from_cover(t, d, keep, 0);
    assert(t.skip(0) =~= t);
    if keep {
        lemma_filter_all(t, word_char(keep));
    }
}

/// A sentence as `sent_tokenize` gives it: non-empty, with no white space at
/// either end, and with no line break in it.
pub open spec fn sentence_shape(s: Seq<char>) -> bool {
    &&& s.len() > 0
    &&& !unicode_white_space(s[0])
    &&& !unicode_white_space(s[s.len() - 1])
    &&& forall|k: int| 0 <= k < s.len() ==> !line_break(#[trigger] s[k])
}

proof fn lemma_trim_start(s: Seq<char>, i: int)
    requires
        0 <= i <= s.len(),
    ensures
        i <= trim_start_at(s, i) <= s.len(),
        trim_start_at(s, i) < s.len() ==> !unicode_white_space(s[trim_start_at(s, i)]),
    decreases s.len() - i,
{
    if i < s.len() && unicode_white_space(s[i]) {
        lemma_trim_start(s, i + 1);
    }
}

proof fn lemma_trim_end(s: Seq<char>, lo: int, j: int)
    requires
        0 <= lo <= j <= s.len(),
    ensures
        lo <= trim_end_at(s, lo, j) <= j,
        lo < trim_end_at(s, lo, j) ==> !unicode_white_space(s[trim_end_at(s, lo, j) - 1]),
    decreases j - lo,
{
    if lo < j && unicode_white_space(s[j - 1]) {
        lemma_trim_end(s, lo, j - 1);
    }
}

proof fn lemma_emit_shape(seg: Seq<char>)
    requires
        forall|k: int| 0 <= k < seg.len() ==> !line_break(#[trigger] seg[k]),
    ensures
        forall|k: int| 0 <= k < emit(seg).len() ==> sentence_shape(#[trigger] emit(seg)[k]),
{
    let a = trim_start_at(seg, 0);
    lemma_trim_start(seg, 0);
    lemma_trim_end(seg, a, seg.len() as int);
    let r = trim(seg);
    if r.len() > 0 {
        assert(r[0] == seg[a]);
        assert forall|k: int| 0 <= k < r.len() implies !line_break(#[trigger] r[k]) by {
            assert(r[k] == seg[a + k]);
        }
        assert(sentence_shape(emit(seg)[0]));
    }
}

proof fn lemma_shape_concat(a: Seq<Seq<char>>, b: Seq<Seq<char>>)
    requires
        forall|k: int| 0 <= k < a.len() ==> sentence_shape(#[trigger] a[k]),
        forall|k: int| 0 <= k < b.len() ==> sentence_shape(#[trigger] b[k]),
    ensures
        forall|k: int| 0 <= k < (a + b).len() ==> sentence_shape(#[trigger] (a + b)[k]),
{
    assert forall|k: int| 0 <= k < (a + b).len() implies sentence_shape(#[trigger] (a + b)[k]) by {
        if k < a.len() {
            assert((a + b)[k] == a[k]);
        } else {
            assert((a + b)[k] == b[k - a.len()]);
        }
    }
}

proof fn lemma_sentences_from_shape(t: Seq<char>, i: int, start: int)
    requires
        0 <= start <= i <= t.len(),
        forall|k: int| start <= k < i ==> !line_break(#[trigger] t[k]),
    ensures
        forall|k: int|
            0 <= k < sentences_from(t, i, start).len() ==> sentence_shape(
                #[trigger] sentences_from(t, i, start)[k],
            ),
    decreases t.len() - i,
{
    if i >= t.len() {
        if start < t.len() {
            let seg = t.subrange(start, t.len() as int);
            assert forall|k: int| 0 <= k < seg.len() implies !line_break(#[trigger] seg[k]) by {
                assert(seg[k] == t[start + k]);
            }
            lemma_emit_shape(seg);
            assert(sentences_from(t, i, start) == emit(seg));
        } else {
            assert(sentences_from(t, i, start) =~= Seq::<Seq<char>>::empty());
        }
    } else {
        let c = t[i];
        if i + 2 < t.len() && breaks_after(c, t[i + 1], t[i + 2], unicode_uppercase(t[i + 2])) {
            lemma_skip_from(t, i + 2, false);
            let k = skip_from(t, i + 2, false);
            let seg = t.subrange(start, i + 1);
            assert(sentences_from(t, i, start) == emit(seg) + sentences_from(t, k, k));
            assert forall|m: int| 0 <= m < seg.len() implies !line_break(#[trigger] seg[m]) by {
                assert(seg[m] == t[start + m]);
            }
            lemma_emit_shape(seg);
            lemma_sentences_from_shape(t, k, k);
            lemma_shape_concat(emit(seg), sentences_from(t, k, k));
        } else if thai_sentence_end(c) {
            lemma_skip_from(t, i + 1, true);
            let k = skip_from(t, i + 1, true);
            let seg = t.subrange(start, i + 1);
            assert(sentences_from(t, i, start) == emit(seg) + sentences_from(t, k, k));
            assert forall|m: int| 0 <= m < seg.len() implies !line_break(#[trigger] seg[m]) by {
                assert(seg[m] == t[start + m]);
            }
            lemma_emit_shape(seg);
            lemma_sentences_from_shape(t, k, k);
            lemma_shape_concat(emit(seg), sentences_from(t, k, k));
        } else if line_break(c) {
            lemma_skip_breaks(t, i + 1);
            let k = skip_breaks(t, i + 1);
            let seg = t.subrange(start, i);
            assert(sentences_from(t, i, start) == emit(seg) + sentences_from(t, k, k));
            assert forall|m: int| 0 <= m < seg.len() implies !line_break(#[trigger] seg[m]) by {
                assert(seg[m] == t[start + m]);
            }
            lemma_emit_shape(seg);
            lemma_sentences_from_shape(t, k, k);
            lemma_shape_concat(emit(seg), sentences_from(t, k, k));
        } else {
            lemma_sentences_from_shape(t, i + 1, start);
            assert(sentences_from(t, i, start) == sentences_from(t, i + 1, start));
        }
    }
}

/// Every sentence is non-empty, has no white space at either end and holds
/// no line break.
pub proof fn lemma_sentences_shape(t: Seq<char>)
    ensures
        forall|k: int| 0 <= k < sentences(t).len() ==> sentence_shape(#[trigger] sentences(t)[k]),
{
    lemma_sentences_from_shape(t, 0, 0);
}

/// `None` stands for the built-in word list: with a list holding exactly
/// the built-in words, the word tokens are the same.
pub proof fn lemma_none_is_builtin_list(t: Seq<char>, words: &[&str], keep: bool)
    requires
        word_set(words@) == default_dictionary(),
    ensures
        word_tokens(t, dictionary_of(None), keep) == word_tokens(t, dictionary_of(Some(words)), keep),
{
}

/// With a list of words, the dictionary is exactly the words of the list:
/// a sequence is in it just when some entry of the list spells it, and the
/// built-in list takes no part.
pub proof fn lemma_custom_dictionary(ws: &[&str], w: Seq<char>)
    ensures
        dictionary_of(Some(ws)).contains(w) <==> exists|i: int|
            0 <= i < ws@.len() && (#[trigger] ws@[i])@ == w,
{
    let m = ws@.map_values(|x: &str| x@);
    if dictionary_of(Some(ws)).contains(w) {
        assert(m.to_set().contains(w));
        assert(m.contains(w));
        let i = choose|i: int| 0 <= i < m.len() && m[i] == w;
        assert(ws@[i]@ == w);
    }
    if exists|i: int| 0 <= i < ws@.len() && (#[trigger] ws@[i])@ == w {
        let i = choose|i: int| 0 <= i < ws@.len() && (#[trigger] ws@[i])@ == w;
        assert(m[i] == w);
        assert(m.contains(w));
        assert(m.to_set().contains(w));
    }
}

} // verus!
