//! NewMM word segmentation of a run of Thai text (Haruechaiyasak et al. 2009).
//!
//! A segmentation cuts the run into pieces, each a word of the dictionary or
//! the character cluster (or single character) that the cluster tokenizer
//! takes at that position. Dynamic programming finds one with the fewest
//! pieces; among those, each cut ends the piece that starts at the earliest
//! position from which the cut can be reached in the fewest pieces.
use vstd::prelude::*;
use crate::tcc::{Elem, lemma_tcc_unit_bounds, patterns_view, tcc_patterns, tcc_unit, tcc_unit_at};
use crate::text::{string_of, string_of_range};
use crate::tokenize::strings_view;
use crate::trie::Trie;

verus! {

/// The cost that stands for "not reachable".
pub open spec fn inf(t: Seq<char>) -> nat {
    t.len() + 1
}

/// Whether `t[i..j]` may be a piece: a word of `d`, or the cluster unit at `i`.
pub open spec fn edge(t: Seq<char>, d: Set<Seq<char>>, i: int, j: int) -> bool {
    0 <= i < j <= t.len() && (d.contains(t.subrange(i, j)) || j == i + tcc_unit(t, i))
}

/// The cost of reaching `j` through a last piece starting at `i`.
pub open spec fn cand(t: Seq<char>, d: Set<Seq<char>>, i: int, j: int) -> nat
    decreases i, i + 2,
{
    if 0 <= i && edge(t, d, i, j) && dist(t, d, i) < inf(t) {
        dist(t, d, i) + 1
    } else {
        inf(t)
    }
}

/// The least cost of reaching `j` through a last piece starting before `k`.
pub open spec fn relax(t: Seq<char>, d: Set<Seq<char>>, j: int, k: int) -> nat
    decreases j, k,
{
    if k <= 0 || k > j {
        inf(t)
    } else {
        let m = relax(t, d, j, k - 1);
        let c = cand(t, d, k - 1, j);
        if c < m {
            c
        } else {
            m
        }
    }
}

/// The fewest pieces that `t[..j]` can be cut into (`inf(t)` where none).
pub open spec fn dist(t: Seq<char>, d: Set<Seq<char>>, j: int) -> nat
    decreases j, j + 1,
{
    if j <= 0 {
        0
    } else {
        relax(t, d, j, j)
    }
}

/// The earliest start, before `k`, of a last piece that reaches `j` at the
/// cost `relax(t, d, j, k)`.
pub open spec fn relax_arg(t: Seq<char>, d: Set<Seq<char>>, j: int, k: int) -> int
    decreases k,
{
    if k <= 0 || k > j {
        0
    } else if cand(t, d, k - 1, j) < relax(t, d, j, k - 1) {
        k - 1
    } else {
        relax_arg(t, d, j, k - 1)
    }
}

/// The start of the last piece of the chosen segmentation of `t[..j]`.
pub open spec fn pred(t: Seq<char>, d: Set<Seq<char>>, j: int) -> int {
    relax_arg(t, d, j, j)
}

/// The pieces of the chosen segmentation of `t[..j]`.
pub open spec fn cuts(t: Seq<char>, d: Set<Seq<char>>, j: int) -> Seq<Seq<char>>
    decreases j,
{
    if j <= 0 {
        Seq::empty()
    } else {
        let p = pred(t, d, j);
        if 0 <= p < j {
            cuts(t, d, p).push(t.subrange(p, j))
        } else {
            Seq::empty()
        }
    }
}

/// The NewMM segmentation of `t` with dictionary `d`.
pub open spec fn newmm_tokens(t: Seq<char>, d: Set<Seq<char>>) -> Seq<Seq<char>> {
    if t.len() == 0 {
        Seq::empty()
    } else if dist(t, d, t.len() as int) >= inf(t) {
        seq![t]
    } else {
        cuts(t, d, t.len() as int)
    }
}

proof fn lemma_relax_le_inf(t: Seq<char>, d: Set<Seq<char>>, j: int, k: int)
    ensures
        relax(t, d, j, k) <= inf(t),
    decreases k,
{
    if k > 0 && k <= j {
        lemma_relax_le_inf(t, d, j, k - 1);
    }
}

proof fn lemma_relax_arg_lt(t: Seq<char>, d: Set<Seq<char>>, j: int, k: int)
    requires
        1 <= j,
    ensures
        0 <= relax_arg(t, d, j, k) < j,
    decreases k,
{
    if k > 0 && k <= j {
        lemma_relax_arg_lt(t, d, j, k - 1);
    }
}

/// Segment a run of Thai text using the NewMM dynamic programming.
pub fn newmm_segment(t: &Vec<char>, trie: &Trie, ps: &Vec<Vec<Elem>>) -> (r: Vec<String>)
    requires
        trie.wf(),
        patterns_view(ps@) == tcc_patterns(),
        t@.len() < usize::MAX,
    ensures
        strings_view(r@) == newmm_tokens(t@, trie@),
{
    let n = t.len();
    if n == 0 {
        return Vec::new();
    }
    let ghost d = trie@;
    let ghost s = t@;
    let inf = n + 1;
    let mut dp: Vec<usize> = Vec::new();
    let mut prev: Vec<usize> = Vec::new();
    let mut z: usize = 0;
    while z <= n
        invariant
            z <= n + 1,
            n == s.len(),
            inf == n + 1,
            dp@.len() == z,
            prev@.len() == z,
            forall|j: int| 0 <= j < z ==> dp@[j] == inf && prev@[j] == 0,
        decreases n + 1 - z,
    {
        dp.push(inf);
        prev.push(0);
        z = z + 1;
    }
    dp.set(0, 0);
    proof {
        assert forall|j: int| 1 <= j <= n implies dp@[j] == relax(s, d, j, 0) && prev@[j]
            == relax_arg(s, d, j, 0) by {}
    }
    let mut i: usize = 0;
    while i < n
        invariant
            trie.wf(),
            trie@ == d,
            t@ == s,
            patterns_view(ps@) == tcc_patterns(),
            n == s.len(),
            inf == n + 1,
            i <= n,
            dp@.len() == n + 1,
            prev@.len() == n + 1,
            dp@[0] == 0,
            forall|j: int|
                1 <= j <= n ==> #[trigger] dp@[j] == relax(s, d, j, if i < j {
                    i as int
                } else {
                    j
                }),
            forall|j: int|
                1 <= j <= n ==> #[trigger] prev@[j] == relax_arg(s, d, j, if i < j {
                    i as int
                } else {
                    j
                }),
        decreases n - i,
    {
        let ghost dist_i = dist(s, d, i as int);
        assert(dp@[i as int] == dist_i) by {
            if i > 0 {
                assert(dp@[i as int] == relax(s, d, i as int, i as int));
            }
        }
        proof {
            lemma_relax_le_inf(s, d, i as int, i as int);
        }
        if dp[i] < inf {
            let cost = dp[i] + 1;
            let ls = trie.prefixes(t, i);
            assert forall|j: int| 1 <= j <= i implies #[trigger] dp@[j] == relax(s, d, j, j) by {
                assert(dp@[j] == relax(s, d, j, j));
            }
            assert forall|j: int| 1 <= j <= i implies #[trigger] prev@[j] == relax_arg(s, d, j, j) by {
                assert(prev@[j] == relax_arg(s, d, j, j));
            }
            assert forall|j: int| i < j <= n implies (#[trigger] dp@[j] == relax(
                s,
                d,
                j,
                i as int,
            ) && prev@[j] == relax_arg(s, d, j, i as int)) || (dp@[j] == cost && prev@[j] == i
                && cost < relax(s, d, j, i as int) && edge(s, d, i as int, j)) by {
                assert(dp@[j] == relax(s, d, j, i as int));
                assert(prev@[j] == relax_arg(s, d, j, i as int));
            }
            let mut q: usize = 0;
            while q < ls.len()
                invariant
                    n == s.len(),
                    t@ == s,
                    inf == n + 1,
                    i < n,
                    dist_i < inf,
                    cost == dist_i + 1,
                    dp@.len() == n + 1,
                    prev@.len() == n + 1,
                    dp@[0] == 0,
                    dist(s, d, i as int) == dist_i,
                    q <= ls@.len(),
                    forall|k: int|
                        0 <= k < ls@.len() ==> 1 <= #[trigger] ls@[k] && i + ls@[k] <= s.len()
                            && d.contains(s.subrange(i as int, i + ls@[k])),
                    forall|e: int|
                        i < e <= s.len() && #[trigger] d.contains(s.subrange(i as int, e))
                            ==> ls@.contains((e - i) as usize),
                    forall|k1: int, k2: int| 0 <= k1 < k2 < ls@.len() ==> ls@[k1] < ls@[k2],
                    forall|j: int| 1 <= j <= i ==> #[trigger] dp@[j] == relax(s, d, j, j),
                    forall|j: int| 1 <= j <= i ==> #[trigger] prev@[j] == relax_arg(s, d, j, j),
                    forall|j: int|
                        i < j <= n ==> (#[trigger] dp@[j] == relax(s, d, j, i as int) && prev@[j]
                            == relax_arg(s, d, j, i as int)) || (dp@[j] == cost && prev@[j] == i
                            && cost < relax(s, d, j, i as int) && edge(s, d, i as int, j)),
                    forall|k: int|
                        0 <= k < q ==> (cost < relax(s, d, i + #[trigger] ls@[k], i as int)
                            ==> dp@[i + ls@[k]] == cost && prev@[i + ls@[k]] == i),
                decreases ls.len() - q,
            {
                let j = i + ls[q];
                let ghost dp0 = dp@;
                let ghost prev0 = prev@;
                assert(edge(s, d, i as int, j as int));
                if cost < dp[j] {
                    dp.set(j, cost);
                    prev.set(j, i);
                }
                assert forall|x: int| 1 <= x <= i implies #[trigger] dp@[x] == relax(s, d, x, x) by {
                    assert(dp@[x] == dp0[x]);
                }
                assert forall|x: int| 1 <= x <= i implies #[trigger] prev@[x] == relax_arg(s, d, x, x) by {
                    assert(prev@[x] == prev0[x]);
                }
                assert forall|x: int| i < x <= n implies (#[trigger] dp@[x] == relax(
                    s,
                    d,
                    x,
                    i as int,
                ) && prev@[x] == relax_arg(s, d, x, i as int)) || (dp@[x] == cost && prev@[x] == i
                    && cost < relax(s, d, x, i as int) && edge(s, d, i as int, x)) by {
                    if x != j {
                        assert(dp@[x] == dp0[x]);
                        assert(prev@[x] == prev0[x]);
                    } else {
                        assert(dp0[x] == relax(s, d, x, i as int) && prev0[x] == relax_arg(s, d, x, i as int)
                            || dp0[x] == cost);
                    }
                }
                assert forall|k: int|
                    0 <= k < q + 1 && cost < relax(s, d, i + #[trigger] ls@[k], i as int)
                    implies dp@[i + ls@[k]] == cost && prev@[i + ls@[k]] == i by {
                    if k < q {
                        assert(ls@[k] < ls@[q as int]);
                        assert(dp@[i + ls@[k]] == dp0[i + ls@[k]]);
                        assert(prev@[i + ls@[k]] == prev0[i + ls@[k]]);
                    }
                }
                q = q + 1;
            }
            let u = tcc_unit_at(ps, t, i);
            let j = i + u;
            let ghost dp0 = dp@;
            let ghost prev0 = prev@;
            if j <= n && cost < dp[j] {
                dp.set(j, cost);
                prev.set(j, i);
            }
            proof {
                assert forall|j: int|
                    #![trigger dp@[j]]
                    #![trigger prev@[j]]
                    1 <= j <= n implies dp@[j] == relax(s, d, j, if i + 1 < j {
                    i + 1
                } else {
                    j
                }) && prev@[j] == relax_arg(s, d, j, if i + 1 < j {
                    i + 1
                } else {
                    j
                }) by {
                    let jt = (i + u) as int;
                    if j <= i {
                        assert(dp@[j] == dp0[j]);
                        assert(prev@[j] == prev0[j]);
                        assert(dp0[j] == relax(s, d, j, j));
                        assert(prev0[j] == relax_arg(s, d, j, j));
                    } else {
                        lemma_relax_le_inf(s, d, j, i as int);
                        assert(dp0[j] == relax(s, d, j, i as int) && prev0[j] == relax_arg(s, d, j, i as int)
                            || (dp0[j] == cost && prev0[j] == i && cost < relax(s, d, j, i as int)
                            && edge(s, d, i as int, j)));
                        assert(relax(s, d, j, i + 1) == if cand(s, d, i as int, j) < relax(s, d, j, i as int) {
                            cand(s, d, i as int, j)
                        } else {
                            relax(s, d, j, i as int)
                        });
                        if edge(s, d, i as int, j) && cost < relax(s, d, j, i as int) {
                            assert(cand(s, d, i as int, j) == cost);
                            if j == jt {
                            } else {
                                assert(d.contains(s.subrange(i as int, j)));
                                assert(ls@.contains((j - i) as usize));
                                let k = choose|k: int| 0 <= k < ls@.len() && ls@[k] == (j - i) as usize;
                                assert(i + ls@[k] == j);
                                assert(dp0[j] == cost);
                                assert(dp@[j] == dp0[j]);
                                assert(prev@[j] == prev0[j]);
                            }
                        } else {
                            if j == jt {
                                assert(edge(s, d, i as int, j));
                            }
                            assert(dp@[j] == dp0[j]);
                            assert(prev@[j] == prev0[j]);
                        }
                    }
                }
            }
        } else {
            proof {
                assert forall|j: int|
                    #![trigger dp@[j]]
                    #![trigger prev@[j]]
                    1 <= j <= n implies dp@[j] == relax(s, d, j, if i + 1 < j {
                    i + 1
                } else {
                    j
                }) && prev@[j] == relax_arg(s, d, j, if i + 1 < j {
                    i + 1
                } else {
                    j
                }) by {
                    if j > i {
                        lemma_relax_le_inf(s, d, j, i as int);
                        assert(cand(s, d, i as int, j) == inf);
                        assert(dp@[j] == relax(s, d, j, i as int));
                        assert(prev@[j] == relax_arg(s, d, j, i as int));
                    } else {
                        assert(dp@[j] == relax(s, d, j, j));
                        assert(prev@[j] == relax_arg(s, d, j, j));
                    }
                }
            }
        }
        i = i + 1;
    }
    assert forall|j: int| 1 <= j <= n implies #[trigger] prev@[j] == pred(s, d, j) by {
        assert(prev@[j] == relax_arg(s, d, j, j));
    }
    if dp[n] == inf {
        let mut r: Vec<String> = Vec::new();
        r.push(string_of(t));
        assert(strings_view(r@) =~= seq![s]);
        return r;
    }
    let mut out: Vec<String> = Vec::new();
    let mut pos: usize = n;
    assert(strings_view(out@) =~= Seq::<Seq<char>>::empty());
    while pos > 0
        invariant
            n == s.len(),
            t@ == s,
            pos <= n,
            prev@.len() == n + 1,
            forall|j: int| 1 <= j <= n ==> #[trigger] prev@[j] == pred(s, d, j),
            cuts(s, d, n as int) == cuts(s, d, pos as int) + strings_view(out@),
        decreases pos,
    {
        let start = prev[pos];
        proof {
            lemma_relax_arg_lt(s, d, pos as int, pos as int);
        }
        let tok = string_of_range(t, start, pos);
        let ghost before = strings_view(out@);
        out.insert(0, tok);
        assert(strings_view(out@) =~= seq![s.subrange(start as int, pos as int)] + before);
        assert(cuts(s, d, pos as int) == cuts(s, d, start as int).push(
            s.subrange(start as int, pos as int),
        ));
        assert(cuts(s, d, start as int) + strings_view(out@) =~= cuts(s, d, pos as int)
            + before);
        pos = start;
    }
    assert(cuts(s, d, 0) + strings_view(out@) =~= strings_view(out@));
    out
}

proof fn lemma_cuts_cover(t: Seq<char>, d: Set<Seq<char>>, j: int)
    requires
        0 <= j <= t.len(),
    ensures
        cuts(t, d, j).flatten() == t.take(j),
    decreases j,
{
    if j == 0 {
        assert(t.take(0) =~= Seq::<char>::empty());
    } else {
        lemma_relax_arg_lt(t, d, j, j);
        let p = pred(t, d, j);
        lemma_cuts_cover(t, d, p);
        cuts(t, d, p).lemma_flatten_push(t.subrange(p, j));
        assert(t.take(p) + t.subrange(p, j) =~= t.take(j));
    }
}

/// The pieces of a NewMM segmentation concatenate to the text.
pub proof fn lemma_newmm_cover(t: Seq<char>, d: Set<Seq<char>>)
    ensures
        newmm_tokens(t, d).flatten() == t,
{
    if t.len() == 0 {
    } else if dist(t, d, t.len() as int) >= inf(t) {
        seq![t].lemma_flatten_one_element();
    } else {
        lemma_cuts_cover(t, d, t.len() as int);
        assert(t.take(t.len() as int) =~= t);
    }
}

proof fn lemma_relax_le_cand(t: Seq<char>, d: Set<Seq<char>>, j: int, k: int, i: int)
    requires
        0 <= i < k <= j,
    ensures
        relax(t, d, j, k) <= cand(t, d, i, j),
    decreases k,
{
    if i < k - 1 {
        lemma_relax_le_cand(t, d, j, k - 1, i);
    }
}

proof fn lemma_relax_arg_achieves(t: Seq<char>, d: Set<Seq<char>>, j: int, k: int)
    requires
        1 <= k <= j,
        relax(t, d, j, k) < inf(t),
    ensures
        0 <= relax_arg(t, d, j, k) < k,
        cand(t, d, relax_arg(t, d, j, k), j) == relax(t, d, j, k),
    decreases k,
{
    if !(cand(t, d, k - 1, j) < relax(t, d, j, k - 1)) {
        lemma_relax_arg_achieves(t, d, j, k - 1);
    }
}

proof fn lemma_cuts_len(t: Seq<char>, d: Set<Seq<char>>, j: int)
    requires
        0 <= j <= t.len(),
        dist(t, d, j) < inf(t),
    ensures
        cuts(t, d, j).len() == dist(t, d, j),
    decreases j,
{
    if j > 0 {
        lemma_relax_arg_achieves(t, d, j, j);
        let p = pred(t, d, j);
        assert(cand(t, d, p, j) == dist(t, d, j));
        assert(dist(t, d, p) < inf(t));
        lemma_cuts_len(t, d, p);
    }
}

/// Whether the positions `cs` cut `t` into pieces that are each a word of
/// `d` or the cluster unit at their start: from 0 to the end of `t`.
pub open spec fn segmentation(t: Seq<char>, d: Set<Seq<char>>, cs: Seq<int>) -> bool {
    &&& cs.len() >= 1
    &&& cs[0] == 0
    &&& cs.last() == t.len()
    &&& forall|k: int| 0 <= k < cs.len() - 1 ==> edge(t, d, #[trigger] cs[k], cs[k + 1])
}

proof fn lemma_path_dist(t: Seq<char>, d: Set<Seq<char>>, cs: Seq<int>, m: int)
    requires
        cs.len() >= 1,
        cs[0] == 0,
        0 <= m < cs.len(),
        forall|k: int| 0 <= k < cs.len() - 1 ==> edge(t, d, #[trigger] cs[k], cs[k + 1]),
    ensures
        dist(t, d, cs[m]) <= m,
        m <= cs[m] <= t.len(),
    decreases m,
{
    if m > 0 {
        lemma_path_dist(t, d, cs, m - 1);
        let i = cs[m - 1];
        let j = cs[m];
        assert(edge(t, d, i, j));
        lemma_relax_le_cand(t, d, j, j, i);
    }
}

/// No segmentation into dictionary words and cluster units has fewer pieces
/// than the NewMM segmentation.
pub proof fn lemma_newmm_fewest_pieces(t: Seq<char>, d: Set<Seq<char>>, cs: Seq<int>)
    requires
        t.len() > 0,
        segmentation(t, d, cs),
    ensures
        newmm_tokens(t, d).len() <= cs.len() - 1,
{
    let n = t.len() as int;
    lemma_path_dist(t, d, cs, cs.len() - 1);
    assert(dist(t, d, n) <= cs.len() - 1);
    lemma_cuts_len(t, d, n);
}

/// The pieces into which the positions `cs` cut `t`.
pub open spec fn pieces(t: Seq<char>, cs: Seq<int>) -> Seq<Seq<char>> {
    Seq::new((cs.len() - 1) as nat, |k: int| t.subrange(cs[k], cs[k + 1]))
}

/// The positions at which the cluster units of `t` from `i` on begin, and
/// the end of `t`.
pub open spec fn unit_cuts(t: Seq<char>, i: int) -> Seq<int>
    decreases t.len() - i,
{
    if i < 0 || i >= t.len() {
        seq![t.len() as int]
    } else {
        let u = tcc_unit(t, i);
        if u >= 1 && i + u <= t.len() {
            seq![i] + unit_cuts(t, i + u)
        } else {
            seq![t.len() as int]
        }
    }
}

proof fn lemma_unit_cuts(t: Seq<char>, d: Set<Seq<char>>, i: int)
    requires
        0 <= i <= t.len(),
    ensures
        unit_cuts(t, i).len() >= 1,
        unit_cuts(t, i)[0] == if i < t.len() {
            i
        } else {
            t.len() as int
        },
        unit_cuts(t, i).last() == t.len(),
        forall|k: int|
            0 <= k < unit_cuts(t, i).len() - 1 ==> edge(
                t,
                d,
                #[trigger] unit_cuts(t, i)[k],
                unit_cuts(t, i)[k + 1],
            ),
    decreases t.len() - i,
{
    if i < t.len() {
        lemma_tcc_unit_bounds(t, i);
        let u = tcc_unit(t, i) as int;
        lemma_unit_cuts(t, d, i + u);
        let rest = unit_cuts(t, i + u);
        let cs = unit_cuts(t, i);
        assert(cs == seq![i] + rest);
        assert forall|k: int| 0 <= k < cs.len() - 1 implies edge(
            t,
            d,
            #[trigger] cs[k],
            cs[k + 1],
        ) by {
            if k == 0 {
                assert(cs[1] == rest[0]);
            } else {
                assert(cs[k] == rest[k - 1]);
                assert(cs[k + 1] == rest[k]);
            }
        }
    }
}

/// The cut positions of the chosen segmentation of `t[..j]`.
pub open spec fn cut_points(t: Seq<char>, d: Set<Seq<char>>, j: int) -> Seq<int>
    decreases j,
{
    if j <= 0 {
        seq![0]
    } else {
        let p = pred(t, d, j);
        if 0 <= p < j {
            cut_points(t, d, p).push(j)
        } else {
            seq![0]
        }
    }
}

proof fn lemma_cut_points(t: Seq<char>, d: Set<Seq<char>>, j: int)
    requires
        0 <= j <= t.len(),
        dist(t, d, j) < inf(t),
    ensures
        cut_points(t, d, j).len() >= 1,
        cut_points(t, d, j)[0] == 0,
        cut_points(t, d, j).last() == j,
        forall|k: int|
            0 <= k < cut_points(t, d, j).len() - 1 ==> edge(
                t,
                d,
                #[trigger] cut_points(t, d, j)[k],
                cut_points(t, d, j)[k + 1],
            ),
        cuts(t, d, j) == pieces(t, cut_points(t, d, j)),
    decreases j,
{
    if j > 0 {
        lemma_relax_arg_achieves(t, d, j, j);
        let p = pred(t, d, j);
        assert(cand(t, d, p, j) == dist(t, d, j));
        assert(edge(t, d, p, j) && dist(t, d, p) < inf(t));
        lemma_cut_points(t, d, p);
        let prev = cut_points(t, d, p);
        let cs = prev.push(j);
        assert(cut_points(t, d, j) == cs);
        assert forall|k: int| 0 <= k < cs.len() - 1 implies edge(
            t,
            d,
            #[trigger] cs[k],
            cs[k + 1],
        ) by {
            if k < prev.len() - 1 {
                assert(cs[k] == prev[k] && cs[k + 1] == prev[k + 1]);
            } else {
                assert(cs[k] == prev.last());
            }
        }
        assert(cuts(t, d, j) =~= pieces(t, cs)) by {
            assert(cuts(t, d, j) == cuts(t, d, p).push(t.subrange(p, j)));
            assert forall|k: int| 0 <= k < cs.len() - 1 implies #[trigger] pieces(t, cs)[k]
                == cuts(t, d, j)[k] by {
                if k < prev.len() - 1 {
                    assert(pieces(t, prev)[k] == t.subrange(prev[k], prev[k + 1]));
                }
            }
        }
    } else {
        assert(cuts(t, d, j) =~= pieces(t, seq![0]));
    }
}

/// The NewMM segmentation of a non-empty run is a segmentation into
/// dictionary words and cluster units, and no such segmentation has fewer
/// pieces.
pub proof fn lemma_newmm_optimal(t: Seq<char>, d: Set<Seq<char>>)
    requires
        t.len() > 0,
    ensures
        exists|cs: Seq<int>| segmentation(t, d, cs) && newmm_tokens(t, d) == pieces(t, cs),
        forall|cs: Seq<int>|
            #[trigger] segmentation(t, d, cs) ==> newmm_tokens(t, d).len() <= cs.len() - 1,
{
    let n = t.len() as int;
    lemma_unit_cuts(t, d, 0);
    let us = unit_cuts(t, 0);
    assert(segmentation(t, d, us));
    lemma_path_dist(t, d, us, us.len() - 1);
    assert(dist(t, d, n) < inf(t));
    lemma_cut_points(t, d, n);
    let cs = cut_points(t, d, n);
    assert(segmentation(t, d, cs));
    assert forall|c: Seq<int>| #[trigger] segmentation(t, d, c) implies newmm_tokens(t, d).len()
        <= c.len() - 1 by {
        lemma_newmm_fewest_pieces(t, d, c);
    }
}

} // verus!
