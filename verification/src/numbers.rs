//! Thai number words: from a number to its words, and back.
use vstd::prelude::*;
use crate::text::{extend, str_chars, string_of};

verus! {

/// The number of words in the number table.
pub open spec fn num_table_len() -> int {
    18
}

/// The words of the number table, in the order in which they are tried:
/// by length in UTF-8 bytes, longest first.
#[verifier::opaque]
pub open spec fn num_word(k: int) -> Seq<char> {
    if k == 0 {
        seq!['ศ', '\u{0e39}', 'น', 'ย', '\u{0e4c}']
    } else if k == 1 {
        seq!['ห', 'น', '\u{0e36}', '\u{0e48}', 'ง']
    } else if k == 2 {
        seq!['ห', 'ม', '\u{0e37}', '\u{0e48}', 'น']
    } else if k == 3 {
        seq!['\u{0e40}', 'จ', '\u{0e47}', 'ด']
    } else if k == 4 {
        seq!['\u{0e40}', 'ก', '\u{0e49}', '\u{0e32}']
    } else if k == 5 {
        seq!['\u{0e40}', 'อ', '\u{0e47}', 'ด']
    } else if k == 6 {
        seq!['ร', '\u{0e49}', 'อ', 'ย']
    } else if k == 7 {
        seq!['ล', '\u{0e49}', '\u{0e32}', 'น']
    } else if k == 8 {
        seq!['ส', 'อ', 'ง']
    } else if k == 9 {
        seq!['ส', '\u{0e32}', 'ม']
    } else if k == 10 {
        seq!['ส', '\u{0e35}', '\u{0e48}']
    } else if k == 11 {
        seq!['ห', '\u{0e49}', '\u{0e32}']
    } else if k == 12 {
        seq!['\u{0e41}', 'ป', 'ด']
    } else if k == 13 {
        seq!['ย', '\u{0e35}', '\u{0e48}']
    } else if k == 14 {
        seq!['ส', '\u{0e34}', 'บ']
    } else if k == 15 {
        seq!['พ', '\u{0e31}', 'น']
    } else if k == 16 {
        seq!['\u{0e41}', 'ส', 'น']
    } else if k == 17 {
        seq!['ห', 'ก']
    } else {
        Seq::empty()
    }
}

/// The value of each word of the number table.
pub open spec fn num_value(k: int) -> nat {
    if k == 0 {
        0
    } else if k == 1 {
        1
    } else if k == 2 {
        10000
    } else if k == 3 {
        7
    } else if k == 4 {
        9
    } else if k == 5 {
        1
    } else if k == 6 {
        100
    } else if k == 7 {
        1000000
    } else if k == 8 {
        2
    } else if k == 9 {
        3
    } else if k == 10 {
        4
    } else if k == 11 {
        5
    } else if k == 12 {
        8
    } else if k == 13 {
        2
    } else if k == 14 {
        10
    } else if k == 15 {
        1000
    } else if k == 16 {
        100000
    } else if k == 17 {
        6
    } else {
        0
    }
}

/// Whether the word of the number table multiplies (a place word).
pub open spec fn num_is_mult(k: int) -> bool {
    k == 2 || k == 6 || k == 7 || k == 14 || k == 15 || k == 16
}

/// The entry of the table whose word starts with the two given characters.
pub open spec fn num_key_index(a: char, b: char) -> int {
    if a == 'ศ' && b == '\u{0e39}' {
        0
    } else if a == 'ห' && b == 'น' {
        1
    } else if a == 'ห' && b == 'ม' {
        2
    } else if a == '\u{0e40}' && b == 'จ' {
        3
    } else if a == '\u{0e40}' && b == 'ก' {
        4
    } else if a == '\u{0e40}' && b == 'อ' {
        5
    } else if a == 'ร' && b == '\u{0e49}' {
        6
    } else if a == 'ล' && b == '\u{0e49}' {
        7
    } else if a == 'ส' && b == 'อ' {
        8
    } else if a == 'ส' && b == '\u{0e32}' {
        9
    } else if a == 'ส' && b == '\u{0e35}' {
        10
    } else if a == 'ห' && b == '\u{0e49}' {
        11
    } else if a == '\u{0e41}' && b == 'ป' {
        12
    } else if a == 'ย' && b == '\u{0e35}' {
        13
    } else if a == 'ส' && b == '\u{0e34}' {
        14
    } else if a == 'พ' && b == '\u{0e31}' {
        15
    } else if a == '\u{0e41}' && b == 'ส' {
        16
    } else if a == 'ห' && b == 'ก' {
        17
    } else {
        -1
    }
}

/// Builds the word of entry `k` of the number table.
pub fn num_word_chars(k: usize) -> (r: Vec<char>)
    requires
        k < 18,
    ensures
        r@ == num_word(k as int),
{
    if k == 0 {
        let r = vec!['ศ', '\u{0e39}', 'น', 'ย', '\u{0e4c}'];
        assert(r@ =~= num_word(k as int)) by {
            reveal(num_word);
        }
        r
    } else if k == 1 {
        let r = vec!['ห', 'น', '\u{0e36}', '\u{0e48}', 'ง'];
        assert(r@ =~= num_word(k as int)) by {
            reveal(num_word);
        }
        r
    } else if k == 2 {
        let r = vec!['ห', 'ม', '\u{0e37}', '\u{0e48}', 'น'];
        assert(r@ =~= num_word(k as int)) by {
            reveal(num_word);
        }
        r
    } else if k == 3 {
        let r = vec!['\u{0e40}', 'จ', '\u{0e47}', 'ด'];
        assert(r@ =~= num_word(k as int)) by {
            reveal(num_word);
        }
        r
    } else if k == 4 {
        let r = vec!['\u{0e40}', 'ก', '\u{0e49}', '\u{0e32}'];
        assert(r@ =~= num_word(k as int)) by {
            reveal(num_word);
        }
        r
    } else if k == 5 {
        let r = vec!['\u{0e40}', 'อ', '\u{0e47}', 'ด'];
        assert(r@ =~= num_word(k as int)) by {
            reveal(num_word);
        }
        r
    } else if k == 6 {
        let r = vec!['ร', '\u{0e49}', 'อ', 'ย'];
        assert(r@ =~= num_word(k as int)) by {
            reveal(num_word);
        }
        r
    } else if k == 7 {
        let r = vec!['ล', '\u{0e49}', '\u{0e32}', 'น'];
        assert(r@ =~= num_word(k as int)) by {
            reveal(num_word);
        }
        r
    } else if k == 8 {
        let r = vec!['ส', 'อ', 'ง'];
        assert(r@ =~= num_word(k as int)) by {
            reveal(num_word);
        }
        r
    } else if k == 9 {
        let r = vec!['ส', '\u{0e32}', 'ม'];
        assert(r@ =~= num_word(k as int)) by {
            reveal(num_word);
        }
        r
    } else if k == 10 {
        let r = vec!['ส', '\u{0e35}', '\u{0e48}'];
        assert(r@ =~= num_word(k as int)) by {
            reveal(num_word);
        }
        r
    } else if k == 11 {
        let r = vec!['ห', '\u{0e49}', '\u{0e32}'];
        assert(r@ =~= num_word(k as int)) by {
            reveal(num_word);
        }
        r
    } else if k == 12 {
        let r = vec!['\u{0e41}', 'ป', 'ด'];
        assert(r@ =~= num_word(k as int)) by {
            reveal(num_word);
        }
        r
    } else if k == 13 {
        let r = vec!['ย', '\u{0e35}', '\u{0e48}'];
        assert(r@ =~= num_word(k as int)) by {
            reveal(num_word);
        }
        r
    } else if k == 14 {
        let r = vec!['ส', '\u{0e34}', 'บ'];
        assert(r@ =~= num_word(k as int)) by {
            reveal(num_word);
        }
        r
    } else if k == 15 {
        let r = vec!['พ', '\u{0e31}', 'น'];
        assert(r@ =~= num_word(k as int)) by {
            reveal(num_word);
        }
        r
    } else if k == 16 {
        let r = vec!['\u{0e41}', 'ส', 'น'];
        assert(r@ =~= num_word(k as int)) by {
            reveal(num_word);
        }
        r
    } else if k == 17 {
        let r = vec!['ห', 'ก'];
        assert(r@ =~= num_word(k as int)) by {
            reveal(num_word);
        }
        r
    } else {
        Vec::new()
    }
}

/// The value of entry `k` of the number table, and whether it multiplies.
pub fn num_entry(k: usize) -> (r: (u64, bool))
    requires
        k < 18,
    ensures
        r.0 == num_value(k as int),
        r.1 == num_is_mult(k as int),
{
    if k == 0 {
        (0, false)
    } else if k == 1 {
        (1, false)
    } else if k == 2 {
        (10000, true)
    } else if k == 3 {
        (7, false)
    } else if k == 4 {
        (9, false)
    } else if k == 5 {
        (1, false)
    } else if k == 6 {
        (100, true)
    } else if k == 7 {
        (1000000, true)
    } else if k == 8 {
        (2, false)
    } else if k == 9 {
        (3, false)
    } else if k == 10 {
        (4, false)
    } else if k == 11 {
        (5, false)
    } else if k == 12 {
        (8, false)
    } else if k == 13 {
        (2, false)
    } else if k == 14 {
        (10, true)
    } else if k == 15 {
        (1000, true)
    } else if k == 16 {
        (100000, true)
    } else if k == 17 {
        (6, false)
    } else {
        (0, false)
    }
}

/// The table entry of the word for digit `d` (1..9), and of ศูนย์ for 0.
pub open spec fn digit_id(d: int) -> int {
    if d == 0 {
        0
    } else if d == 1 {
        1
    } else if d == 2 {
        8
    } else if d == 3 {
        9
    } else if d == 4 {
        10
    } else if d == 5 {
        11
    } else if d == 6 {
        17
    } else if d == 7 {
        3
    } else if d == 8 {
        12
    } else {
        4
    }
}

/// The entries for digit `d` of the place `unit`, where `d` is not zero.
pub open spec fn place_ids(d: int, unit: int) -> Seq<int> {
    if d > 0 {
        seq![digit_id(d), unit]
    } else {
        Seq::empty()
    }
}

/// The entries for the tens digit: สิบ alone for one, ยี่สิบ for two.
pub open spec fn tens_ids(te: int) -> Seq<int> {
    if te == 0 {
        Seq::empty()
    } else if te == 2 {
        seq![13, 14]
    } else if te == 1 {
        seq![14]
    } else {
        seq![digit_id(te), 14]
    }
}

/// The entries for the ones digit: เอ็ด for one after a tens digit.
pub open spec fn ones_ids(on: int, te: int) -> Seq<int> {
    if on == 0 {
        Seq::empty()
    } else if on == 1 && te > 0 {
        seq![5]
    } else {
        seq![digit_id(on)]
    }
}

/// The entries for a number below one million (none for zero).
pub open spec fn chunk_ids(m: nat) -> Seq<int> {
    if m == 0 {
        Seq::empty()
    } else {
        let ht = m / 100000;
        let r = m % 100000;
        let tm = r / 10000;
        let r = r % 10000;
        let th = r / 1000;
        let r = r % 1000;
        let hu = r / 100;
        let r = r % 100;
        let te = r / 10;
        let on = r % 10;
        place_ids(ht as int, 16) + place_ids(tm as int, 2) + place_ids(th as int, 15) + place_ids(
            hu as int,
            6,
        ) + tens_ids(te as int) + ones_ids(on as int, te as int)
    }
}

/// The entries for a positive number: the entries for its millions (a
/// number of any size) followed by ล้าน, then those of the rest below one
/// million; none for zero.
pub open spec fn nonzero_ids(n: nat) -> Seq<int>
    decreases n,
{
    if n == 0 {
        Seq::empty()
    } else {
        let m = n / 1000000;
        (if m > 0 {
            nonzero_ids(m).push(7)
        } else {
            Seq::empty()
        }) + chunk_ids(n % 1000000)
    }
}

/// The entries for a number: ศูนย์ for zero.
pub open spec fn number_ids(n: nat) -> Seq<int> {
    if n == 0 {
        seq![0]
    } else {
        nonzero_ids(n)
    }
}

/// The words of a list of table entries, concatenated.
pub open spec fn words_of(ids: Seq<int>) -> Seq<char> {
    ids.map_values(|k: int| num_word(k)).flatten()
}

/// The Thai words for `n`.
pub open spec fn thai_number_words(n: nat) -> Seq<char> {
    words_of(number_ids(n))
}

proof fn lemma_words_of_push(ids: Seq<int>, k: int)
    ensures
        words_of(ids.push(k)) == words_of(ids) + num_word(k),
{
    let m = ids.map_values(|k: int| num_word(k));
    assert(ids.push(k).map_values(|k: int| num_word(k)) =~= m.push(num_word(k)));
    m.lemma_flatten_push(num_word(k));
}

proof fn lemma_words_of_concat(a: Seq<int>, b: Seq<int>)
    ensures
        words_of(a + b) == words_of(a) + words_of(b),
{
    let ma = a.map_values(|k: int| num_word(k));
    let mb = b.map_values(|k: int| num_word(k));
    assert((a + b).map_values(|k: int| num_word(k)) =~= ma + mb);
    vstd::seq_lib::lemma_flatten_concat(ma, mb);
}

fn digit_index(d: u64) -> (k: usize)
    requires
        d <= 9,
    ensures
        k == digit_id(d as int),
        k < 18,
{
    if d == 0 {
        0
    } else if d == 1 {
        1
    } else if d == 2 {
        8
    } else if d == 3 {
        9
    } else if d == 4 {
        10
    } else if d == 5 {
        11
    } else if d == 6 {
        17
    } else if d == 7 {
        3
    } else if d == 8 {
        12
    } else {
        4
    }
}

/// Appends the word of entry `k` to `out`.
fn push_entry(out: &mut Vec<char>, k: usize)
    requires
        k < 18,
    ensures
        final(out)@ == old(out)@ + num_word(k as int),
{
    let w = num_word_chars(k);
    extend(out, &w);
}

/// The entries of `part`, widened to integers.
pub open spec fn ids_view(part: Seq<usize>) -> Seq<int> {
    part.map_values(|k: usize| k as int)
}

/// Appends the words of the entries of `part` to `out`.
fn push_ids(out: &mut Vec<char>, part: &Vec<usize>, Ghost(ids): Ghost<Seq<int>>)
    requires
        old(out)@ == words_of(ids),
        forall|k: int| 0 <= k < part@.len() ==> part@[k] < 18,
    ensures
        final(out)@ == words_of(ids + ids_view(part@)),
{
    let mut q: usize = 0;
    while q < part.len()
        invariant
            q <= part@.len(),
            forall|k: int| 0 <= k < part@.len() ==> part@[k] < 18,
            out@ == words_of(ids + ids_view(part@.take(q as int))),
        decreases part.len() - q,
    {
        proof {
            lemma_words_of_push(ids + ids_view(part@.take(q as int)), part@[q as int] as int);
            assert(ids + ids_view(part@.take(q + 1)) =~= (ids + ids_view(part@.take(q as int))).push(
                part@[q as int] as int,
            ));
        }
        push_entry(out, part[q]);
        q = q + 1;
    }
    assert(part@.take(part@.len() as int) =~= part@);
}

fn place_part(d: u64, unit: usize) -> (r: Vec<usize>)
    requires
        d <= 9,
        unit < 18,
    ensures
        ids_view(r@) == place_ids(d as int, unit as int),
        forall|k: int| 0 <= k < r@.len() ==> r@[k] < 18,
{
    let mut r: Vec<usize> = Vec::new();
    if d > 0 {
        r.push(digit_index(d));
        r.push(unit);
    }
    assert(ids_view(r@) =~= place_ids(d as int, unit as int));
    r
}

fn tens_part(te: u64) -> (r: Vec<usize>)
    requires
        te <= 9,
    ensures
        ids_view(r@) == tens_ids(te as int),
        forall|k: int| 0 <= k < r@.len() ==> r@[k] < 18,
{
    let mut r: Vec<usize> = Vec::new();
    if te > 0 {
        if te == 2 {
            r.push(13);
            r.push(14);
        } else if te == 1 {
            r.push(14);
        } else {
            r.push(digit_index(te));
            r.push(14);
        }
    }
    assert(ids_view(r@) =~= tens_ids(te as int));
    r
}

fn ones_part(on: u64, te: u64) -> (r: Vec<usize>)
    requires
        on <= 9,
    ensures
        ids_view(r@) == ones_ids(on as int, te as int),
        forall|k: int| 0 <= k < r@.len() ==> r@[k] < 18,
{
    let mut r: Vec<usize> = Vec::new();
    if on > 0 {
        if on == 1 && te > 0 {
            r.push(5);
        } else {
            r.push(digit_index(on));
        }
    }
    assert(ids_view(r@) =~= ones_ids(on as int, te as int));
    r
}

/// The Thai words for a number below one million; nothing for zero.
pub fn chunk_to_thaiword(n: u64) -> (r: Vec<char>)
    requires
        n < 1000000,
    ensures
        r@ == words_of(chunk_ids(n as nat)),
        r@.len() == 0 <==> n == 0,
        n > 0 ==> r@ == thai_number_words(n as nat),
{
    proof {
        lemma_chunk_words(n as nat);
    }
    let mut s: Vec<char> = Vec::new();
    if n == 0 {
        assert(words_of(Seq::<int>::empty()) =~= Seq::<char>::empty());
        return s;
    }
    let h_t = n / 100000;
    let rest = n % 100000;
    let tm = rest / 10000;
    let rest = rest % 10000;
    let th = rest / 1000;
    let rest = rest % 1000;
    let hu = rest / 100;
    let rest = rest % 100;
    let te = rest / 10;
    let on = rest % 10;
    assert(h_t <= 9 && tm <= 9 && th <= 9 && hu <= 9 && te <= 9 && on <= 9) by (nonlinear_arith)
        requires
            n < 1000000,
            h_t == n / 100000,
            tm == (n % 100000) / 10000,
            th == ((n % 100000) % 10000) / 1000,
            hu == (((n % 100000) % 10000) % 1000) / 100,
            te == ((((n % 100000) % 10000) % 1000) % 100) / 10,
            on == ((((n % 100000) % 10000) % 1000) % 100) % 10,
    ;
    let p1 = place_part(h_t, 16);
    let p2 = place_part(tm, 2);
    let p3 = place_part(th, 15);
    let p4 = place_part(hu, 6);
    let p5 = tens_part(te);
    let p6 = ones_part(on, te);
    let ghost e: Seq<int> = Seq::empty();
    assert(s@ =~= words_of(e));
    push_ids(&mut s, &p1, Ghost(e));
    push_ids(&mut s, &p2, Ghost(e + ids_view(p1@)));
    push_ids(&mut s, &p3, Ghost(e + ids_view(p1@) + ids_view(p2@)));
    push_ids(&mut s, &p4, Ghost(e + ids_view(p1@) + ids_view(p2@) + ids_view(p3@)));
    push_ids(&mut s, &p5, Ghost(e + ids_view(p1@) + ids_view(p2@) + ids_view(p3@) + ids_view(p4@)));
    push_ids(
        &mut s,
        &p6,
        Ghost(e + ids_view(p1@) + ids_view(p2@) + ids_view(p3@) + ids_view(p4@) + ids_view(p5@)),
    );
    assert(e + ids_view(p1@) + ids_view(p2@) + ids_view(p3@) + ids_view(p4@) + ids_view(p5@)
        + ids_view(p6@) =~= chunk_ids(n as nat));
    s
}

/// Appends the Thai words of `n` (nothing for zero) to `out`.
fn push_number_words(out: &mut Vec<char>, n: u64)
    ensures
        final(out)@ == old(out)@ + words_of(nonzero_ids(n as nat)),
    decreases n,
{
    if n == 0 {
        assert(words_of(Seq::<int>::empty()) =~= Seq::<char>::empty());
        assert(old(out)@ + Seq::<char>::empty() =~= old(out)@);
        return;
    }
    let millions = n / 1000000;
    let remainder = n % 1000000;
    let ghost head: Seq<int> = if millions > 0 {
        nonzero_ids(millions as nat).push(7)
    } else {
        Seq::empty()
    };
    let ghost start = out@;
    if millions > 0 {
        push_number_words(out, millions);
        push_entry(out, 7);
        proof {
            lemma_words_of_push(nonzero_ids(millions as nat), 7);
        }
    } else {
        assert(words_of(Seq::<int>::empty()) =~= Seq::<char>::empty());
    }
    assert(out@ =~= start + words_of(head));
    let c = chunk_to_thaiword(remainder);
    extend(out, &c);
    proof {
        lemma_words_of_concat(head, chunk_ids(remainder as nat));
        assert(nonzero_ids(n as nat) == head + chunk_ids(remainder as nat));
    }
    assert(out@ =~= start + words_of(nonzero_ids(n as nat)));
}

/// Convert a non-negative integer to its Thai word representation.
pub fn num_to_thaiword(n: u64) -> (r: String)
    ensures
        r@ == thai_number_words(n as nat),
{
    if n == 0 {
        let w = num_word_chars(0);
        proof {
            lemma_words_of_push(Seq::empty(), 0);
            assert(seq![0int] =~= Seq::<int>::empty().push(0));
            assert(words_of(Seq::<int>::empty()) =~= Seq::<char>::empty());
        }
        return string_of(&w);
    }
    let mut s: Vec<char> = Vec::new();
    push_number_words(&mut s, n);
    assert(s@ =~= thai_number_words(n as nat));
    string_of(&s)
}

// ---------------------------------------------------------------------------
// Thai words to number
// ---------------------------------------------------------------------------

/// Every word of the number table has at least two characters, and its
/// first two characters tell it from all others.
pub proof fn lemma_num_word_key(k: int)
    requires
        0 <= k < num_table_len(),
    ensures
        num_word(k).len() >= 2,
        num_key_index(num_word(k)[0], num_word(k)[1]) == k,
{
    reveal(num_word);
}

/// Whether `s` starts with `w`.
pub open spec fn starts_with(s: Seq<char>, w: Seq<char>) -> bool {
    w.len() <= s.len() && s.take(w.len() as int) == w
}

/// The first entry of the table, from `k` on, whose word starts `s`.
pub open spec fn first_word(s: Seq<char>, k: int) -> Option<int>
    decreases num_table_len() - k,
{
    if k < 0 || k >= num_table_len() {
        None
    } else if starts_with(s, num_word(k)) {
        Some(k)
    } else {
        first_word(s, k + 1)
    }
}

/// `s` read as table words, each time the first word of the table that
/// starts what is left; `None` where none does.
pub open spec fn num_tokenize(s: Seq<char>) -> Option<Seq<int>>
    decreases s.len(),
{
    if s.len() == 0 {
        Some(Seq::empty())
    } else {
        match first_word(s, 0) {
            None => None,
            Some(k) => {
                let l = num_word(k).len();
                if 0 < l <= s.len() {
                    match num_tokenize(s.skip(l as int)) {
                        Some(rest) => Some(seq![k] + rest),
                        None => None,
                    }
                } else {
                    None
                }
            },
        }
    }
}

/// The reading state: the total so far, the group being built, the pending digit value.
pub struct NumState {
    pub total: nat,
    pub group: nat,
    pub pending: nat,
}

/// Reads table entry `k`: a digit adds to the pending value; ล้าน makes
/// everything read so far (or one, where nothing is) a number of millions;
/// another place word multiplies the pending value (or one) into the group.
pub open spec fn num_step(st: NumState, k: int) -> NumState {
    if !num_is_mult(k) {
        NumState { total: st.total, group: st.group, pending: st.pending + num_value(k) }
    } else if num_value(k) == 1000000 {
        let sofar = st.total + st.group + st.pending;
        let gv: nat = if sofar > 0 {
            sofar
        } else {
            1
        };
        NumState { total: gv * 1000000, group: 0, pending: 0 }
    } else {
        let f: nat = if st.pending > 0 {
            st.pending
        } else {
            1
        };
        NumState { total: st.total, group: st.group + f * num_value(k), pending: 0 }
    }
}

/// The state after reading the entries `ids` from `st`.
pub open spec fn num_run(ids: Seq<int>, st: NumState) -> NumState
    decreases ids.len(),
{
    if ids.len() == 0 {
        st
    } else {
        num_run(ids.drop_first(), num_step(st, ids[0]))
    }
}

/// The value that a state stands for.
pub open spec fn num_sum(st: NumState) -> nat {
    st.total + st.group + st.pending
}

/// The number that the Thai words `s` stand for, where they are made of
/// number words.
pub open spec fn thaiword_value(s: Seq<char>) -> Option<nat> {
    if s.len() == 0 {
        None
    } else {
        match num_tokenize(s) {
            None => None,
            Some(ids) => Some(num_sum(num_run(ids, NumState { total: 0, group: 0, pending: 0 }))),
        }
    }
}

/// The value as a `u64`; `None` where there is none or it does not fit.
pub open spec fn value_u64(v: Option<nat>) -> Option<u64> {
    match v {
        Some(x) => if x <= u64::MAX {
            Some(x as u64)
        } else {
            None
        },
        None => None,
    }
}

proof fn lemma_num_step_grows(st: NumState, k: int)
    requires
        0 <= k < num_table_len(),
    ensures
        num_sum(num_step(st, k)) >= num_sum(st),
        num_step(st, k).total >= st.total,
{
    if num_is_mult(k) && num_value(k) != 1000000 {
        let f: nat = if st.pending > 0 {
            st.pending
        } else {
            1
        };
        assert(f * num_value(k) >= f) by (nonlinear_arith)
            requires
                num_value(k) >= 1,
        ;
    }
}

proof fn lemma_num_run_grows(ids: Seq<int>, st: NumState)
    requires
        forall|q: int| 0 <= q < ids.len() ==> 0 <= #[trigger] ids[q] < num_table_len(),
    ensures
        num_sum(num_run(ids, st)) >= num_sum(st),
    decreases ids.len(),
{
    if ids.len() > 0 {
        lemma_num_step_grows(st, ids[0]);
        lemma_num_run_grows(ids.drop_first(), num_step(st, ids[0]));
    }
}

proof fn lemma_first_word_range(s: Seq<char>, k: int)
    requires
        0 <= k,
    ensures
        first_word(s, k) matches Some(j) ==> k <= j < num_table_len() && starts_with(s, num_word(j)),
    decreases num_table_len() - k,
{
    if k < num_table_len() && !starts_with(s, num_word(k)) {
        lemma_first_word_range(s, k + 1);
    }
}

proof fn lemma_num_tokenize_range(s: Seq<char>)
    ensures
        num_tokenize(s) matches Some(ids) ==> forall|q: int|
            0 <= q < ids.len() ==> 0 <= #[trigger] ids[q] < num_table_len(),
    decreases s.len(),
{
    if s.len() > 0 {
        lemma_first_word_range(s, 0);
        match first_word(s, 0) {
            None => {},
            Some(k) => {
                let l = num_word(k).len();
                if 0 < l <= s.len() {
                    lemma_num_tokenize_range(s.skip(l as int));
                    match num_tokenize(s.skip(l as int)) {
                        Some(rest) => {
                            let ids = seq![k] + rest;
                            assert forall|q: int| 0 <= q < ids.len() implies 0 <= #[trigger] ids[q]
                                < num_table_len() by {
                                if q > 0 {
                                    assert(ids[q] == rest[q - 1]);
                                }
                            }
                        },
                        None => {},
                    }
                }
            },
        }
    }
}

/// Whether the word of entry `k` is at position `pos` of `v`.
fn word_at(v: &Vec<char>, pos: usize, k: usize) -> (r: bool)
    requires
        pos <= v@.len(),
        k < 18,
    ensures
        r == starts_with(v@.skip(pos as int), num_word(k as int)),
{
    let w = num_word_chars(k);
    let n = v.len();
    if w.len() > n - pos {
        return false;
    }
    let mut q: usize = 0;
    while q < w.len()
        invariant
            q <= w@.len(),
            n == v@.len(),
            w@ == num_word(k as int),
            pos + w@.len() <= v@.len(),
            forall|x: int| 0 <= x < q ==> w@[x] == v@[pos + x],
        decreases w.len() - q,
    {
        if w[q] != v[pos + q] {
            assert(v@.skip(pos as int).take(w@.len() as int)[q as int] != w@[q as int]);
            assert(v@.skip(pos as int).take(w@.len() as int) != w@);
            return false;
        }
        q = q + 1;
    }
    assert(v@.skip(pos as int).take(w@.len() as int) =~= w@);
    true
}

/// `None` stays `None`; otherwise `p` is put in front.
pub open spec fn prepend(p: Seq<int>, o: Option<Seq<int>>) -> Option<Seq<int>> {
    match o {
        Some(r) => Some(p + r),
        None => None,
    }
}

/// Convert a Thai number word to an integer, or return None on failure
/// (text not made of number words, or a value that does not fit in `u64`).
pub fn thaiword_to_num(text: &str) -> (r: Option<u64>)
    ensures
        r == value_u64(thaiword_value(text@)),
{
    let v = str_chars(text);
    let n = v.len();
    if n == 0 {
        return None;
    }
    // Tokenize
    let mut ids: Vec<usize> = Vec::new();
    let mut pos: usize = 0;
    assert(v@.skip(0) =~= v@);
    while pos < n
        invariant
            n == v@.len(),
            v@ == text@,
            pos <= n,
            forall|q: int| 0 <= q < ids@.len() ==> ids@[q] < 18,
            num_tokenize(v@) == prepend(ids_view(ids@), num_tokenize(v@.skip(pos as int))),
        decreases n - pos,
    {
        let ghost rest = v@.skip(pos as int);
        let mut k: usize = 0;
        let mut found = false;
        while k < 18 && !found
            invariant
                k <= 18,
                pos < n,
                n == v@.len(),
                rest == v@.skip(pos as int),
                first_word(rest, 0) == first_word(rest, k as int),
                found ==> k < 18 && starts_with(rest, num_word(k as int)),
            decreases 18 - k + (if found {
                0int
            } else {
                1
            }),
        {
            if word_at(&v, pos, k) {
                found = true;
            } else {
                k = k + 1;
            }
        }
        if !found {
            assert(first_word(rest, 18) is None);
            assert(rest.len() > 0);
            assert(num_tokenize(rest) is None);
            return None;
        }
        proof {
            lemma_first_word_range(rest, k as int);
        }
        assert(first_word(rest, 0) == Some(k as int));
        let ghost before = ids_view(ids@);
        ids.push(k);
        let w = num_word_chars(k);
        let l = w.len();
        proof {
            lemma_num_word_key(k as int);
        }
        assert(v@.skip(pos as int).skip(l as int) =~= v@.skip(pos + l));
        assert(ids_view(ids@) =~= before + seq![k as int]);
        pos = pos + l;
    }
    assert(v@.skip(n as int) =~= Seq::<char>::empty());
    assert(ids_view(ids@) + Seq::<int>::empty() =~= ids_view(ids@));
    // Parse hierarchically
    let ghost all = ids_view(ids@);
    let ghost value = num_sum(num_run(all, NumState { total: 0, group: 0, pending: 0 }));
    assert(thaiword_value(text@) == Some(value));
    let mut total: u64 = 0;
    let mut group: u64 = 0;
    let mut pending: u64 = 0;
    let mut q: usize = 0;
    assert(all.skip(0) =~= all);
    while q < ids.len()
        invariant
            q <= ids@.len(),
            all == ids_view(ids@),
            forall|x: int| 0 <= x < ids@.len() ==> ids@[x] < 18,
            thaiword_value(text@) == Some(value),
            num_sum(num_run(all.skip(q as int), NumState {
                total: total as nat,
                group: group as nat,
                pending: pending as nat,
            })) == value,
        decreases ids.len() - q,
    {
        let k = ids[q];
        let (val, is_mult) = num_entry(k);
        let ghost st = NumState { total: total as nat, group: group as nat, pending: pending as nat };
        let ghost next = num_step(st, k as int);
        proof {
            assert(all.skip(q as int).drop_first() =~= all.skip(q + 1));
            assert(all.skip(q as int)[0] == k as int);
            assert forall|x: int| 0 <= x < all.skip(q + 1).len() implies 0 <= #[trigger] all.skip(q + 1)[x]
                < num_table_len() by {
                assert(all.skip(q + 1)[x] == ids@[q + 1 + x] as int);
            }
            lemma_num_run_grows(all.skip(q + 1), next);
            assert(value >= num_sum(next));
        }
        if !is_mult {
            match pending.checked_add(val) {
                Some(p) => {
                    pending = p;
                },
                None => {
                    return None;
                },
            }
        } else if val == 1000000 {
            let tg = match total.checked_add(group) {
                Some(x) => x,
                None => {
                    return None;
                },
            };
            let sofar = match tg.checked_add(pending) {
                Some(x) => x,
                None => {
                    return None;
                },
            };
            let gv = if sofar > 0 {
                sofar
            } else {
                1
            };
            match gv.checked_mul(1000000) {
                Some(t) => {
                    total = t;
                },
                None => {
                    return None;
                },
            }
            group = 0;
            pending = 0;
        } else {
            let factor = if pending > 0 {
                pending
            } else {
                1
            };
            let prod = match factor.checked_mul(val) {
                Some(x) => x,
                None => {
                    return None;
                },
            };
            match group.checked_add(prod) {
                Some(g) => {
                    group = g;
                },
                None => {
                    return None;
                },
            }
            pending = 0;
        }
        q = q + 1;
    }
    assert(all.skip(q as int) =~= Seq::<int>::empty());
    let tg = match total.checked_add(group) {
        Some(x) => x,
        None => {
            return None;
        },
    };
    tg.checked_add(pending)
}

// ---------------------------------------------------------------------------
// From a number to its words and back
// ---------------------------------------------------------------------------

/// Every entry lies in the table.
pub open spec fn valid_ids(ids: Seq<int>) -> bool {
    forall|q: int| 0 <= q < ids.len() ==> 0 <= #[trigger] ids[q] < num_table_len()
}

proof fn lemma_first_word_is(s: Seq<char>, j: int, k: int)
    requires
        0 <= k <= j < num_table_len(),
        starts_with(s, num_word(j)),
    ensures
        first_word(s, k) == Some(j),
    decreases j - k,
{
    if k < j {
        lemma_num_word_key(j);
        lemma_num_word_key(k);
        if starts_with(s, num_word(k)) {
            assert(s[0] == s.take(num_word(k).len() as int)[0]);
            assert(s[1] == s.take(num_word(k).len() as int)[1]);
            assert(s[0] == s.take(num_word(j).len() as int)[0]);
            assert(s[1] == s.take(num_word(j).len() as int)[1]);
            assert(false);
        }
        lemma_first_word_is(s, j, k + 1);
    }
}

proof fn lemma_words_of_front(ids: Seq<int>)
    requires
        ids.len() > 0,
    ensures
        words_of(ids) == num_word(ids[0]) + words_of(ids.drop_first()),
{
    let m = ids.map_values(|k: int| num_word(k));
    assert(m.drop_first() =~= ids.drop_first().map_values(|k: int| num_word(k)));
}

/// Reading the words of valid table entries gives back those entries.
proof fn lemma_tokenize_words(ids: Seq<int>)
    requires
        valid_ids(ids),
    ensures
        num_tokenize(words_of(ids)) == Some(ids),
        ids.len() > 0 ==> words_of(ids).len() > 0,
    decreases ids.len(),
{
    if ids.len() == 0 {
        assert(words_of(ids) =~= Seq::<char>::empty());
    } else {
        let k = ids[0];
        let w = num_word(k);
        let rest = ids.drop_first();
        let s = words_of(ids);
        lemma_words_of_front(ids);
        lemma_num_word_key(k);
        assert(s.take(w.len() as int) =~= w);
        lemma_first_word_is(s, k, 0);
        assert(s.skip(w.len() as int) =~= words_of(rest));
        assert(valid_ids(rest)) by {
            assert forall|q: int| 0 <= q < rest.len() implies 0 <= #[trigger] rest[q]
                < num_table_len() by {
                assert(rest[q] == ids[q + 1]);
            }
        }
        lemma_tokenize_words(rest);
        assert(seq![k] + rest =~= ids);
    }
}

proof fn lemma_num_run_concat(a: Seq<int>, b: Seq<int>, st: NumState)
    ensures
        num_run(a + b, st) == num_run(b, num_run(a, st)),
    decreases a.len(),
{
    if a.len() > 0 {
        assert((a + b).drop_first() =~= a.drop_first() + b);
        assert((a + b)[0] == a[0]);
        lemma_num_run_concat(a.drop_first(), b, num_step(st, a[0]));
    }
}

proof fn lemma_run_one(ids: Seq<int>, st: NumState)
    requires
        ids.len() == 1,
    ensures
        num_run(ids, st) == num_step(st, ids[0]),
        valid_ids(ids) <== 0 <= ids[0] < num_table_len(),
{
    assert(ids.drop_first() =~= Seq::<int>::empty());
    assert(num_run(ids, st) == num_run(ids.drop_first(), num_step(st, ids[0])));
    if 0 <= ids[0] < num_table_len() {
        assert forall|q: int| 0 <= q < ids.len() implies 0 <= #[trigger] ids[q] < num_table_len() by {
            assert(q == 0);
        }
    }
}

proof fn lemma_run_two(ids: Seq<int>, st: NumState)
    requires
        ids.len() == 2,
    ensures
        num_run(ids, st) == num_step(num_step(st, ids[0]), ids[1]),
        valid_ids(ids) <== 0 <= ids[0] < num_table_len() && 0 <= ids[1] < num_table_len(),
{
    assert(ids.drop_first()[0] == ids[1]);
    assert(ids.drop_first().drop_first() =~= Seq::<int>::empty());
    assert(num_run(ids, st) == num_run(ids.drop_first(), num_step(st, ids[0])));
    assert(num_run(ids.drop_first(), num_step(st, ids[0])) == num_run(
        ids.drop_first().drop_first(),
        num_step(num_step(st, ids[0]), ids[1]),
    ));
    if 0 <= ids[0] < num_table_len() && 0 <= ids[1] < num_table_len() {
        assert forall|q: int| 0 <= q < ids.len() implies 0 <= #[trigger] ids[q] < num_table_len() by {
            assert(q == 0 || q == 1);
        }
    }
}

proof fn lemma_digit_entry(d: int)
    requires
        1 <= d <= 9,
    ensures
        0 <= digit_id(d) < num_table_len(),
        !num_is_mult(digit_id(d)),
        num_value(digit_id(d)) == d,
{
}

/// Reading a place from a state with nothing pending adds the digit times
/// the place to the group.
proof fn lemma_run_place(d: int, unit: int, st: NumState)
    requires
        0 <= d <= 9,
        unit == 16 || unit == 2 || unit == 15 || unit == 6,
        st.pending == 0,
    ensures
        num_run(place_ids(d, unit), st) == (NumState {
            total: st.total,
            group: st.group + (d * num_value(unit)) as nat,
            pending: 0,
        }),
        valid_ids(place_ids(d, unit)),
{
    if d > 0 {
        lemma_digit_entry(d);
        let s1 = num_step(st, digit_id(d));
        assert(s1.pending == d);
        lemma_run_two(place_ids(d, unit), st);
    } else {
        assert(valid_ids(place_ids(d, unit)));
    }
}

proof fn lemma_run_tens(te: int, st: NumState)
    requires
        0 <= te <= 9,
        st.pending == 0,
    ensures
        num_run(tens_ids(te), st) == (NumState {
            total: st.total,
            group: st.group + (te * 10) as nat,
            pending: 0,
        }),
        valid_ids(tens_ids(te)),
{
    if te == 2 {
        lemma_run_two(tens_ids(te), st);
    } else if te == 1 {
        lemma_run_one(tens_ids(te), st);
    } else if te > 0 {
        lemma_digit_entry(te);
        lemma_run_two(tens_ids(te), st);
    } else {
        assert(valid_ids(tens_ids(te)));
    }
}

proof fn lemma_run_ones(on: int, te: int, st: NumState)
    requires
        0 <= on <= 9,
        st.pending == 0,
    ensures
        num_run(ones_ids(on, te), st) == (NumState {
            total: st.total,
            group: st.group,
            pending: on as nat,
        }),
        valid_ids(ones_ids(on, te)),
{
    if on > 0 {
        if !(on == 1 && te > 0) {
            lemma_digit_entry(on);
        }
        lemma_run_one(ones_ids(on, te), st);
    } else {
        assert(valid_ids(ones_ids(on, te)));
    }
}

proof fn lemma_valid_concat(a: Seq<int>, b: Seq<int>)
    requires
        valid_ids(a),
        valid_ids(b),
    ensures
        valid_ids(a + b),
{
    assert forall|q: int| 0 <= q < (a + b).len() implies 0 <= #[trigger] (a + b)[q]
        < num_table_len() by {
        if q >= a.len() {
            assert((a + b)[q] == b[q - a.len()]);
        }
    }
}

/// Reading the words of a number below one million from a state with nothing
/// in the group or pending leaves the number in the group and the pending value.
proof fn lemma_run_chunk(m: nat, t: nat)
    requires
        m < 1000000,
    ensures
        num_sum(num_run(chunk_ids(m), NumState { total: t, group: 0, pending: 0 })) == t + m,
        num_run(chunk_ids(m), NumState { total: t, group: 0, pending: 0 }).total == t,
        valid_ids(chunk_ids(m)),
{
    let st0 = NumState { total: t, group: 0, pending: 0 };
    if m == 0 {
        assert(valid_ids(chunk_ids(m)));
    } else {
        let ht = m / 100000;
        let r = m % 100000;
        let tm = r / 10000;
        let r2 = r % 10000;
        let th = r2 / 1000;
        let r3 = r2 % 1000;
        let hu = r3 / 100;
        let r4 = r3 % 100;
        let te = r4 / 10;
        let on = r4 % 10;
        assert(ht <= 9 && tm <= 9 && th <= 9 && hu <= 9 && te <= 9 && on <= 9
            && ht * 100000 + tm * 10000 + th * 1000 + hu * 100 + te * 10 + on == m) by (nonlinear_arith)
            requires
                m < 1000000,
                ht == m / 100000,
                r == m % 100000,
                tm == r / 10000,
                r2 == r % 10000,
                th == r2 / 1000,
                r3 == r2 % 1000,
                hu == r3 / 100,
                r4 == r3 % 100,
                te == r4 / 10,
                on == r4 % 10,
        ;
        let a1 = place_ids(ht as int, 16);
        let a2 = place_ids(tm as int, 2);
        let a3 = place_ids(th as int, 15);
        let a4 = place_ids(hu as int, 6);
        let a5 = tens_ids(te as int);
        let a6 = ones_ids(on as int, te as int);
        assert(chunk_ids(m) == a1 + a2 + a3 + a4 + a5 + a6);
        lemma_run_place(ht as int, 16, st0);
        let s1 = num_run(a1, st0);
        lemma_run_place(tm as int, 2, s1);
        let s2 = num_run(a2, s1);
        lemma_run_place(th as int, 15, s2);
        let s3 = num_run(a3, s2);
        lemma_run_place(hu as int, 6, s3);
        let s4 = num_run(a4, s3);
        lemma_run_tens(te as int, s4);
        let s5 = num_run(a5, s4);
        lemma_run_ones(on as int, te as int, s5);
        lemma_num_run_concat(a1, a2, st0);
        lemma_num_run_concat(a1 + a2, a3, st0);
        lemma_num_run_concat(a1 + a2 + a3, a4, st0);
        lemma_num_run_concat(a1 + a2 + a3 + a4, a5, st0);
        lemma_num_run_concat(a1 + a2 + a3 + a4 + a5, a6, st0);
        lemma_valid_concat(a1, a2);
        lemma_valid_concat(a1 + a2, a3);
        lemma_valid_concat(a1 + a2 + a3, a4);
        lemma_valid_concat(a1 + a2 + a3 + a4, a5);
        lemma_valid_concat(a1 + a2 + a3 + a4 + a5, a6);
    }
}

/// The words of a number below one million are empty only for zero, and
/// are the number's Thai words otherwise.
proof fn lemma_chunk_words(n: nat)
    requires
        n < 1000000,
    ensures
        words_of(chunk_ids(n)).len() == 0 <==> n == 0,
        n > 0 ==> words_of(chunk_ids(n)) == thai_number_words(n),
{
    if n == 0 {
        assert(words_of(Seq::<int>::empty()) =~= Seq::<char>::empty());
    } else {
        let st0 = NumState { total: 0, group: 0, pending: 0 };
        lemma_run_chunk(n, 0);
        if chunk_ids(n).len() == 0 {
            assert(num_run(chunk_ids(n), st0) == st0);
        }
        lemma_tokenize_words(chunk_ids(n));
        assert(nonzero_ids(n) =~= chunk_ids(n));
    }
}

/// Reading the entries of a number from the start gives back the number.
proof fn lemma_run_nonzero(n: nat)
    ensures
        valid_ids(nonzero_ids(n)),
        num_sum(num_run(nonzero_ids(n), NumState { total: 0, group: 0, pending: 0 })) == n,
        n > 0 ==> nonzero_ids(n).len() > 0,
    decreases n,
{
    let st0 = NumState { total: 0, group: 0, pending: 0 };
    if n == 0 {
        assert(valid_ids(nonzero_ids(n)));
    } else {
        let m = n / 1000000;
        let r = n % 1000000;
        assert(r < 1000000 && m * 1000000 + r == n && m < n) by (nonlinear_arith)
            requires
                n > 0,
                m == n / 1000000,
                r == n % 1000000,
        ;
        if m > 0 {
            lemma_run_nonzero(m);
            let c = nonzero_ids(m);
            let sm = num_run(c, st0);
            lemma_run_chunk(r, (m * 1000000) as nat);
            lemma_num_run_concat(c, seq![7], st0);
            lemma_run_one(seq![7], sm);
            let s7 = num_step(sm, 7);
            assert(s7 == NumState { total: (m * 1000000) as nat, group: 0, pending: 0 });
            assert(c.push(7) =~= c + seq![7]);
            lemma_num_run_concat(c.push(7), chunk_ids(r), st0);
            lemma_valid_concat(c, seq![7]);
            lemma_valid_concat(c.push(7), chunk_ids(r));
            assert(nonzero_ids(n) == c.push(7) + chunk_ids(r));
        } else {
            lemma_run_chunk(r, 0);
            assert(nonzero_ids(n) =~= chunk_ids(r));
            if chunk_ids(r).len() == 0 {
                assert(num_run(chunk_ids(r), st0) == st0);
            }
        }
    }
}

/// Reading the Thai words of a number gives back the number.
pub proof fn lemma_number_words_roundtrip(n: nat)
    ensures
        thaiword_value(thai_number_words(n)) == Some(n),
{
    let st0 = NumState { total: 0, group: 0, pending: 0 };
    let ids = number_ids(n);
    if n == 0 {
        lemma_run_one(ids, st0);
    } else {
        lemma_run_nonzero(n);
    }
    lemma_tokenize_words(ids);
}

/// The Thai words of the digits, of the place words and of a few numbers
/// that show the special readings (สิบ for ten, เอ็ด for a final one, ยี่ for
/// a tens digit of two), and the numbers that those words read back as.
pub proof fn lemma_number_words_table()
    ensures
        thai_number_words(0) == seq!['ศ', 'ู', 'น', 'ย', '์'],
        thai_number_words(1) == seq!['ห', 'น', 'ึ', '่', 'ง'],
        thai_number_words(2) == seq!['ส', 'อ', 'ง'],
        thai_number_words(3) == seq!['ส', 'า', 'ม'],
        thai_number_words(4) == seq!['ส', 'ี', '่'],
        thai_number_words(5) == seq!['ห', '้', 'า'],
        thai_number_words(6) == seq!['ห', 'ก'],
        thai_number_words(7) == seq!['เ', 'จ', '็', 'ด'],
        thai_number_words(8) == seq!['แ', 'ป', 'ด'],
        thai_number_words(9) == seq!['เ', 'ก', '้', 'า'],
        thai_number_words(10) == seq!['ส', 'ิ', 'บ'],
        thai_number_words(11) == seq!['ส', 'ิ', 'บ', 'เ', 'อ', '็', 'ด'],
        thai_number_words(20) == seq!['ย', 'ี', '่', 'ส', 'ิ', 'บ'],
        thai_number_words(21) == seq!['ย', 'ี', '่', 'ส', 'ิ', 'บ', 'เ', 'อ', '็', 'ด'],
        thai_number_words(100) == seq!['ห', 'น', 'ึ', '่', 'ง', 'ร', '้', 'อ', 'ย'],
        thai_number_words(1000) == seq!['ห', 'น', 'ึ', '่', 'ง', 'พ', 'ั', 'น'],
        thai_number_words(10000) == seq!['ห', 'น', 'ึ', '่', 'ง', 'ห', 'ม', 'ื', '่', 'น'],
        thai_number_words(100000) == seq!['ห', 'น', 'ึ', '่', 'ง', 'แ', 'ส', 'น'],
        thai_number_words(1000000) == seq!['ห', 'น', 'ึ', '่', 'ง', 'ล', '้', 'า', 'น'],
        thaiword_value(seq!['ศ', 'ู', 'น', 'ย', '์']) == Some(0nat),
        thaiword_value(seq!['ห', 'น', 'ึ', '่', 'ง']) == Some(1nat),
        thaiword_value(seq!['ส', 'อ', 'ง']) == Some(2nat),
        thaiword_value(seq!['ส', 'า', 'ม']) == Some(3nat),
        thaiword_value(seq!['ส', 'ี', '่']) == Some(4nat),
        thaiword_value(seq!['ห', '้', 'า']) == Some(5nat),
        thaiword_value(seq!['ห', 'ก']) == Some(6nat),
        thaiword_value(seq!['เ', 'จ', '็', 'ด']) == Some(7nat),
        thaiword_value(seq!['แ', 'ป', 'ด']) == Some(8nat),
        thaiword_value(seq!['เ', 'ก', '้', 'า']) == Some(9nat),
        thaiword_value(seq!['ส', 'ิ', 'บ']) == Some(10nat),
        thaiword_value(seq!['ส', 'ิ', 'บ', 'เ', 'อ', '็', 'ด']) == Some(11nat),
        thaiword_value(seq!['ย', 'ี', '่', 'ส', 'ิ', 'บ']) == Some(20nat),
        thaiword_value(seq!['ย', 'ี', '่', 'ส', 'ิ', 'บ', 'เ', 'อ', '็', 'ด']) == Some(21nat),
        thaiword_value(seq!['ห', 'น', 'ึ', '่', 'ง', 'ร', '้', 'อ', 'ย']) == Some(100nat),
        thaiword_value(seq!['ห', 'น', 'ึ', '่', 'ง', 'พ', 'ั', 'น']) == Some(1000nat),
        thaiword_value(seq!['ห', 'น', 'ึ', '่', 'ง', 'ห', 'ม', 'ื', '่', 'น']) == Some(10000nat),
        thaiword_value(seq!['ห', 'น', 'ึ', '่', 'ง', 'แ', 'ส', 'น']) == Some(100000nat),
        thaiword_value(seq!['ห', 'น', 'ึ', '่', 'ง', 'ล', '้', 'า', 'น']) == Some(1000000nat),
{
    reveal(num_word);
    assert(words_of(Seq::<int>::empty()) =~= Seq::<char>::empty());
    assert(nonzero_ids(1) =~= seq![1int]);
    assert(thai_number_words(0) =~= seq!['ศ', 'ู', 'น', 'ย', '์']) by {
        assert(number_ids(0) =~= seq![0int]);
        lemma_words_of_front(seq![0int]);
        assert(seq![0int].drop_first() =~= Seq::<int>::empty());
    }
    assert(thai_number_words(1) =~= seq!['ห', 'น', 'ึ', '่', 'ง']) by {
        assert(number_ids(1) =~= seq![1int]);
        lemma_words_of_front(seq![1int]);
        assert(seq![1int].drop_first() =~= Seq::<int>::empty());
    }
    assert(thai_number_words(2) =~= seq!['ส', 'อ', 'ง']) by {
        assert(number_ids(2) =~= seq![8int]);
        lemma_words_of_front(seq![8int]);
        assert(seq![8int].drop_first() =~= Seq::<int>::empty());
    }
    assert(thai_number_words(3) =~= seq!['ส', 'า', 'ม']) by {
        assert(number_ids(3) =~= seq![9int]);
        lemma_words_of_front(seq![9int]);
        assert(seq![9int].drop_first() =~= Seq::<int>::empty());
    }
    assert(thai_number_words(4) =~= seq!['ส', 'ี', '่']) by {
        assert(number_ids(4) =~= seq![10int]);
        lemma_words_of_front(seq![10int]);
        assert(seq![10int].drop_first() =~= Seq::<int>::empty());
    }
    assert(thai_number_words(5) =~= seq!['ห', '้', 'า']) by {
        assert(number_ids(5) =~= seq![11int]);
        lemma_words_of_front(seq![11int]);
        assert(seq![11int].drop_first() =~= Seq::<int>::empty());
    }
    assert(thai_number_words(6) =~= seq!['ห', 'ก']) by {
        assert(number_ids(6) =~= seq![17int]);
        lemma_words_of_front(seq![17int]);
        assert(seq![17int].drop_first() =~= Seq::<int>::empty());
    }
    assert(thai_number_words(7) =~= seq!['เ', 'จ', '็', 'ด']) by {
        assert(number_ids(7) =~= seq![3int]);
        lemma_words_of_front(seq![3int]);
        assert(seq![3int].drop_first() =~= Seq::<int>::empty());
    }
    assert(thai_number_words(8) =~= seq!['แ', 'ป', 'ด']) by {
        assert(number_ids(8) =~= seq![12int]);
        lemma_words_of_front(seq![12int]);
        assert(seq![12int].drop_first() =~= Seq::<int>::empty());
    }
    assert(thai_number_words(9) =~= seq!['เ', 'ก', '้', 'า']) by {
        assert(number_ids(9) =~= seq![4int]);
        lemma_words_of_front(seq![4int]);
        assert(seq![4int].drop_first() =~= Seq::<int>::empty());
    }
    assert(thai_number_words(10) =~= seq!['ส', 'ิ', 'บ']) by {
        assert(number_ids(10) =~= seq![14int]);
        lemma_words_of_front(seq![14int]);
        assert(seq![14int].drop_first() =~= Seq::<int>::empty());
    }
    assert(thai_number_words(11) =~= seq!['ส', 'ิ', 'บ', 'เ', 'อ', '็', 'ด']) by {
        assert(number_ids(11) =~= seq![14int, 5int]);
        lemma_words_of_front(seq![14int, 5int]);
        assert(seq![14int, 5int].drop_first() =~= seq![5int]);
        lemma_words_of_front(seq![5int]);
        assert(seq![5int].drop_first() =~= Seq::<int>::empty());
    }
    assert(thai_number_words(20) =~= seq!['ย', 'ี', '่', 'ส', 'ิ', 'บ']) by {
        assert(number_ids(20) =~= seq![13int, 14int]);
        lemma_words_of_front(seq![13int, 14int]);
        assert(seq![13int, 14int].drop_first() =~= seq![14int]);
        lemma_words_of_front(seq![14int]);
        assert(seq![14int].drop_first() =~= Seq::<int>::empty());
    }
    assert(thai_number_words(21) =~= seq!['ย', 'ี', '่', 'ส', 'ิ', 'บ', 'เ', 'อ', '็', 'ด']) by {
        assert(number_ids(21) =~= seq![13int, 14int, 5int]);
        lemma_words_of_front(seq![13int, 14int, 5int]);
        assert(seq![13int, 14int, 5int].drop_first() =~= seq![14int, 5int]);
        lemma_words_of_front(seq![14int, 5int]);
        assert(seq![14int, 5int].drop_first() =~= seq![5int]);
        lemma_words_of_front(seq![5int]);
        assert(seq![5int].drop_first() =~= Seq::<int>::empty());
    }
    assert(thai_number_words(100) =~= seq!['ห', 'น', 'ึ', '่', 'ง', 'ร', '้', 'อ', 'ย']) by {
        assert(number_ids(100) =~= seq![1int, 6int]);
        lemma_words_of_front(seq![1int, 6int]);
        assert(seq![1int, 6int].drop_first() =~= seq![6int]);
        lemma_words_of_front(seq![6int]);
        assert(seq![6int].drop_first() =~= Seq::<int>::empty());
    }
    assert(thai_number_words(1000) =~= seq!['ห', 'น', 'ึ', '่', 'ง', 'พ', 'ั', 'น']) by {
        assert(number_ids(1000) =~= seq![1int, 15int]);
        lemma_words_of_front(seq![1int, 15int]);
        assert(seq![1int, 15int].drop_first() =~= seq![15int]);
        lemma_words_of_front(seq![15int]);
        assert(seq![15int].drop_first() =~= Seq::<int>::empty());
    }
    assert(thai_number_words(10000) =~= seq!['ห', 'น', 'ึ', '่', 'ง', 'ห', 'ม', 'ื', '่', 'น']) by {
        assert(number_ids(10000) =~= seq![1int, 2int]);
        lemma_words_of_front(seq![1int, 2int]);
        assert(seq![1int, 2int].drop_first() =~= seq![2int]);
        lemma_words_of_front(seq![2int]);
        assert(seq![2int].drop_first() =~= Seq::<int>::empty());
    }
    assert(thai_number_words(100000) =~= seq!['ห', 'น', 'ึ', '่', 'ง', 'แ', 'ส', 'น']) by {
        assert(number_ids(100000) =~= seq![1int, 16int]);
        lemma_words_of_front(seq![1int, 16int]);
        assert(seq![1int, 16int].drop_first() =~= seq![16int]);
        lemma_words_of_front(seq![16int]);
        assert(seq![16int].drop_first() =~= Seq::<int>::empty());
    }
    assert(thai_number_words(1000000) =~= seq!['ห', 'น', 'ึ', '่', 'ง', 'ล', '้', 'า', 'น']) by {
        assert(number_ids(1000000) =~= seq![1int, 7int]);
        lemma_words_of_front(seq![1int, 7int]);
        assert(seq![1int, 7int].drop_first() =~= seq![7int]);
        lemma_words_of_front(seq![7int]);
        assert(seq![7int].drop_first() =~= Seq::<int>::empty());
    }
    lemma_number_words_roundtrip(0);
    lemma_number_words_roundtrip(1);
    lemma_number_words_roundtrip(2);
    lemma_number_words_roundtrip(3);
    lemma_number_words_roundtrip(4);
    lemma_number_words_roundtrip(5);
    lemma_number_words_roundtrip(6);
    lemma_number_words_roundtrip(7);
    lemma_number_words_roundtrip(8);
    lemma_number_words_roundtrip(9);
    lemma_number_words_roundtrip(10);
    lemma_number_words_roundtrip(11);
    lemma_number_words_roundtrip(20);
    lemma_number_words_roundtrip(21);
    lemma_number_words_roundtrip(100);
    lemma_number_words_roundtrip(1000);
    lemma_number_words_roundtrip(10000);
    lemma_number_words_roundtrip(100000);
    lemma_number_words_roundtrip(1000000);
}

} // verus!
