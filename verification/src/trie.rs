//! A prefix tree of words, for finding every dictionary word that starts at
//! a position of a text.
//!
//! Nodes are held in a vector; node 0 is the root, and each node lists its
//! children as (character, node index) pairs.
use vstd::prelude::*;

verus! {

/// A node: its children and whether a word ends here.
pub struct TrieNode {
    pub children: Vec<(char, usize)>,
    pub is_end: bool,
}

/// A prefix tree holding a set of words.
pub struct Trie {
    nodes: Vec<TrieNode>,
    /// The characters on the way from the root to each node.
    paths: Ghost<Seq<Seq<char>>>,
    /// The node reached by each path.
    index: Ghost<Map<Seq<char>, nat>>,
    /// The words held.
    words: Ghost<Set<Seq<char>>>,
}

impl View for Trie {
    type V = Set<Seq<char>>;

    closed spec fn view(&self) -> Set<Seq<char>> {
        self.words@
    }
}

impl Trie {
    spec fn path(&self, a: int) -> Seq<char> {
        self.paths@[a]
    }

    spec fn child(&self, a: int, k: int) -> (char, usize) {
        self.nodes@[a].children@[k]
    }

    /// Every edge leads to a node whose path extends its parent's by the edge's character.
    spec fn edges_ok(&self) -> bool {
        forall|a: int, k: int|
            0 <= a < self.nodes@.len() && 0 <= k < self.nodes@[a].children@.len() ==> {
                let (c, m) = #[trigger] self.child(a, k);
                &&& m < self.nodes@.len()
                &&& self.path(m as int) == self.path(a).push(c)
            }
    }

    /// Where a path one character longer than a node's is held, the node has
    /// an edge for that character.
    spec fn edges_complete(&self) -> bool {
        forall|a: int, c: char|
            0 <= a < self.nodes@.len() && #[trigger] self.index@.dom().contains(
                self.path(a).push(c),
            ) ==> exists|k: int|
                0 <= k < self.nodes@[a].children@.len() && (#[trigger] self.child(a, k)).0 == c
    }

    /// The index and the paths agree.
    spec fn index_ok(&self) -> bool {
        &&& forall|a: int|
            0 <= a < self.nodes@.len() ==> #[trigger] self.index@.dom().contains(self.path(a))
                && self.index@[self.path(a)] == a
        &&& forall|p: Seq<char>| #[trigger]
            self.index@.dom().contains(p) ==> self.index@[p] < self.nodes@.len() && self.path(
                self.index@[p] as int,
            ) == p
    }

    /// Every prefix of a held path is held.
    spec fn prefix_closed(&self) -> bool {
        forall|p: Seq<char>, l: int|
            #![trigger self.index@.dom().contains(p), p.take(l)]
            self.index@.dom().contains(p) && 0 <= l <= p.len() ==> self.index@.dom().contains(
                p.take(l),
            )
    }

    /// The words are exactly the paths of the nodes marked as ends.
    spec fn words_ok(&self) -> bool {
        &&& forall|a: int|
            0 <= a < self.nodes@.len() ==> (#[trigger] self.nodes@[a].is_end
                <==> self.words@.contains(self.path(a)))
        &&& forall|w: Seq<char>| #[trigger]
            self.words@.contains(w) ==> self.index@.dom().contains(w)
    }

    /// The invariant of the tree.
    pub closed spec fn wf(&self) -> bool {
        &&& self.nodes@.len() >= 1
        &&& self.paths@.len() == self.nodes@.len()
        &&& self.path(0) == Seq::<char>::empty()
        &&& self.edges_ok()
        &&& self.edges_complete()
        &&& self.index_ok()
        &&& self.prefix_closed()
        &&& self.words_ok()
    }

    /// An empty tree.
    pub fn new() -> (t: Trie)
        ensures
            t.wf(),
            t@ == Set::<Seq<char>>::empty(),
    {
        let mut nodes: Vec<TrieNode> = Vec::new();
        nodes.push(TrieNode { children: Vec::new(), is_end: false });
        let ghost paths: Seq<Seq<char>> = seq![Seq::<char>::empty()];
        let ghost index: Map<Seq<char>, nat> = map![Seq::<char>::empty() => 0nat];
        let t = Trie { nodes, paths: Ghost(paths), index: Ghost(index), words: Ghost(Set::empty()) };
        assert(t.path(0) == Seq::<char>::empty());
        assert forall|p: Seq<char>, l: int|
            #![trigger t.index@.dom().contains(p), p.take(l)]
            t.index@.dom().contains(p) && 0 <= l <= p.len() implies t.index@.dom().contains(
                p.take(l),
            ) by {
            assert(p.take(l) =~= Seq::<char>::empty());
        }
        t
    }

    /// The child of node `a` along `c`, if there is one.
    fn find_child(&self, a: usize, c: char) -> (r: Option<usize>)
        requires
            self.wf(),
            a < self.nodes@.len(),
        ensures
            r matches Some(m) ==> m < self.nodes@.len() && self.path(m as int) == self.path(
                a as int,
            ).push(c),
            r is None ==> !self.index@.dom().contains(self.path(a as int).push(c)),
    {
        let node = &self.nodes[a];
        let mut k: usize = 0;
        while k < node.children.len()
            invariant
                self.wf(),
                a < self.nodes@.len(),
                node == &self.nodes@[a as int],
                k <= node.children@.len(),
                forall|q: int| 0 <= q < k ==> (#[trigger] self.child(a as int, q)).0 != c,
            decreases node.children.len() - k,
        {
            let (ch, m) = node.children[k];
            assert(self.child(a as int, k as int) == (ch, m));
            if ch == c {
                return Some(m);
            }
            k = k + 1;
        }
        None
    }

    fn copy_children(v: &Vec<(char, usize)>) -> (r: Vec<(char, usize)>)
        ensures
            r@ == v@,
    {
        let mut r: Vec<(char, usize)> = Vec::new();
        let mut k: usize = 0;
        while k < v.len()
            invariant
                k <= v@.len(),
                r@ == v@.take(k as int),
            decreases v.len() - k,
        {
            r.push(v[k]);
            k = k + 1;
            assert(r@ =~= v@.take(k as int));
        }
        assert(v@.take(v@.len() as int) =~= v@);
        r
    }

    /// Adds a node under `a` along `c`, where there is none yet.
    fn add_child(&mut self, a: usize, c: char) -> (m: usize)
        requires
            old(self).wf(),
            a < old(self).nodes@.len(),
            !old(self).index@.dom().contains(old(self).path(a as int).push(c)),
        ensures
            final(self).wf(),
            final(self).words@ == old(self).words@,
            final(self).nodes@.len() == old(self).nodes@.len() + 1,
            forall|b: int| 0 <= b < old(self).nodes@.len() ==> #[trigger] final(self).path(b)
                == old(self).path(b),
            m < final(self).nodes@.len(),
            final(self).path(m as int) == old(self).path(a as int).push(c),
    {
        let m = self.nodes.len();
        let ghost p = self.path(a as int).push(c);
        let ghost old_self = *self;
        assert(old_self.wf());
        assert(old_self.index_ok());
        let mut ch = Self::copy_children(&self.nodes[a].children);
        ch.push((c, m));
        let end = self.nodes[a].is_end;
        self.nodes.set(a, TrieNode { children: ch, is_end: end });
        self.nodes.push(TrieNode { children: Vec::new(), is_end: false });
        self.paths = Ghost(self.paths@.push(p));
        self.index = Ghost(self.index@.insert(p, m as nat));
        assert(self.path(m as int) == p);
        assert forall|b: int| 0 <= b < old_self.nodes@.len() implies #[trigger] self.path(b)
            == old_self.path(b) by {}
        assert(self.edges_ok()) by {
            assert forall|x: int, k: int|
                0 <= x < self.nodes@.len() && 0 <= k < self.nodes@[x].children@.len() implies {
                let (cc, mm) = #[trigger] self.child(x, k);
                &&& mm < self.nodes@.len()
                &&& self.path(mm as int) == self.path(x).push(cc)
            } by {
                if x == a {
                    if k < old_self.nodes@[x].children@.len() {
                        assert(self.child(x, k) == old_self.child(x, k));
                    }
                } else if x < m {
                    assert(self.child(x, k) == old_self.child(x, k));
                }
            }
        }
        assert(self.edges_complete()) by {
            assert forall|x: int, cc: char|
                0 <= x < self.nodes@.len() && #[trigger] self.index@.dom().contains(
                    self.path(x).push(cc),
                ) implies exists|k: int|
                0 <= k < self.nodes@[x].children@.len() && (#[trigger] self.child(x, k)).0
                    == cc by {
                if self.path(x).push(cc) == p {
                    assert(self.path(x) == self.path(x).push(cc).drop_last());
                    assert(p.drop_last() == old_self.path(a as int));
                    if x != a {
                        if x < m {
                            assert(old_self.index@.dom().contains(old_self.path(x)));
                            assert(old_self.index@.dom().contains(old_self.path(a as int)));
                            assert(old_self.index@[old_self.path(x)] == x);
                            assert(old_self.index@[old_self.path(a as int)] == a);
                        } else {
                            assert(self.path(x).len() == p.len());
                        }
                    }
                    assert(x == a);
                    assert(p[p.len() - 1] == c);
                    assert(self.path(x).push(cc)[p.len() - 1] == cc);
                    let k = old_self.nodes@[a as int].children@.len() as int;
                    assert(self.child(a as int, k) == (c, m));
                } else {
                    if x == m {
                        assert(self.path(x).push(cc).take(p.len() as int) =~= p);
                        assert(old_self.index@.dom().contains(self.path(x).push(cc)));
                        assert(old_self.index@.dom().contains(self.path(x).push(cc).take(
                            p.len() as int,
                        )));
                        assert(false);
                    } else {
                        assert(old_self.index@.dom().contains(old_self.path(x).push(cc)));
                        let k = choose|k: int|
                            0 <= k < old_self.nodes@[x].children@.len() && (#[trigger] old_self.child(
                                x,
                                k,
                            )).0 == cc;
                        if x == a {
                            assert(self.nodes@[x].children@ == old_self.nodes@[x].children@.push(
                                (c, m),
                            ));
                        }
                        assert(self.child(x, k) == old_self.child(x, k));
                    }
                }
            }
        }
        assert(self.index_ok());
        assert(self.prefix_closed()) by {
            assert forall|q: Seq<char>, l: int|
                #![trigger self.index@.dom().contains(q), q.take(l)]
                self.index@.dom().contains(q) && 0 <= l <= q.len() implies self.index@.dom().contains(
                q.take(l),
            ) by {
                if q == p {
                    if l == q.len() {
                        assert(q.take(l) =~= q);
                    } else {
                        assert(q.take(l) =~= old_self.path(a as int).take(l));
                        assert(old_self.index@.dom().contains(old_self.path(a as int)));
                    }
                }
            }
        }
        assert(self.words_ok()) by {
            assert forall|x: int| 0 <= x < self.nodes@.len() implies (
            #[trigger] self.nodes@[x].is_end <==> self.words@.contains(self.path(x))) by {
                if x == m {
                    assert(!old_self.index@.dom().contains(p));
                }
            }
        }
        m
    }

    /// Marks node `a` as the end of a word.
    fn mark_end(&mut self, a: usize)
        requires
            old(self).wf(),
            a < old(self).nodes@.len(),
        ensures
            final(self).wf(),
            final(self).words@ == old(self).words@.insert(old(self).path(a as int)),
    {
        let ghost old_self = *self;
        assert(old_self.wf());
        assert(old_self.index_ok());
        let ch = Self::copy_children(&self.nodes[a].children);
        self.nodes.set(a, TrieNode { children: ch, is_end: true });
        self.words = Ghost(self.words@.insert(self.path(a as int)));
        assert(self.edges_ok()) by {
            assert forall|x: int, k: int|
                0 <= x < self.nodes@.len() && 0 <= k < self.nodes@[x].children@.len() implies {
                let (cc, mm) = #[trigger] self.child(x, k);
                &&& mm < self.nodes@.len()
                &&& self.path(mm as int) == self.path(x).push(cc)
            } by {
                assert(self.child(x, k) == old_self.child(x, k));
            }
        }
        assert(self.edges_complete()) by {
            assert forall|x: int, cc: char|
                0 <= x < self.nodes@.len() && #[trigger] self.index@.dom().contains(
                    self.path(x).push(cc),
                ) implies exists|k: int|
                0 <= k < self.nodes@[x].children@.len() && (#[trigger] self.child(x, k)).0
                    == cc by {
                assert(old_self.index@.dom().contains(old_self.path(x).push(cc)));
                let k = choose|k: int|
                    0 <= k < old_self.nodes@[x].children@.len() && (#[trigger] old_self.child(
                        x,
                        k,
                    )).0 == cc;
                assert(self.child(x, k) == old_self.child(x, k));
            }
        }
        assert(self.index_ok()) by {
            assert forall|x: int| 0 <= x < self.nodes@.len() implies #[trigger] self.index@.dom().contains(
                self.path(x),
            ) && self.index@[self.path(x)] == x by {
                assert(old_self.index@.dom().contains(old_self.path(x)));
            }
        }
        assert(self.words_ok()) by {
            assert(old_self.index@.dom().contains(old_self.path(a as int)));
            assert forall|x: int| 0 <= x < self.nodes@.len() implies (
            #[trigger] self.nodes@[x].is_end <==> self.words@.contains(self.path(x))) by {
                if x != a && self.path(x) == self.path(a as int) {
                    assert(old_self.index@.dom().contains(old_self.path(x)));
                    assert(old_self.index@.dom().contains(old_self.path(a as int)));
                    assert(false);
                }
            }
        }
    }

    /// Adds `word` to the set of words.
    pub fn add(&mut self, word: &Vec<char>)
        requires
            old(self).wf(),
        ensures
            final(self).wf(),
            final(self)@ == old(self)@.insert(word@),
    {
        let mut a: usize = 0;
        let mut k: usize = 0;
        assert(word@.take(0) =~= Seq::<char>::empty());
        while k < word.len()
            invariant
                self.wf(),
                self.words@ == old(self).words@,
                k <= word@.len(),
                a < self.nodes@.len(),
                self.path(a as int) == word@.take(k as int),
            decreases word.len() - k,
        {
            let c = word[k];
            match self.find_child(a, c) {
                Some(m) => {
                    a = m;
                },
                None => {
                    a = self.add_child(a, c);
                },
            }
            k = k + 1;
            assert(word@.take(k as int) =~= word@.take(k - 1).push(c));
        }
        assert(word@.take(k as int) =~= word@);
        self.mark_end(a);
    }

    /// The lengths `l`, in increasing order, such that the `l` characters of
    /// `text` from `start` on form a word of the tree.
    pub fn prefixes(&self, text: &Vec<char>, start: usize) -> (r: Vec<usize>)
        requires
            self.wf(),
            start <= text@.len(),
        ensures
            forall|k: int|
                0 <= k < r@.len() ==> 1 <= #[trigger] r@[k] && start + r@[k] <= text@.len()
                    && self@.contains(text@.subrange(start as int, start + r@[k])),
            forall|k1: int, k2: int| 0 <= k1 < k2 < r@.len() ==> r@[k1] < r@[k2],
            forall|e: int|
                start < e <= text@.len() && #[trigger] self@.contains(
                    text@.subrange(start as int, e),
                ) ==> r@.contains((e - start) as usize),
    {
        let n = text.len();
        let mut r: Vec<usize> = Vec::new();
        let mut a: usize = 0;
        let mut k: usize = 0;
        assert(text@.subrange(start as int, start as int) =~= Seq::<char>::empty());
        while start + k < n
            invariant
                self.wf(),
                n == text@.len(),
                start + k <= n,
                a < self.nodes@.len(),
                self.path(a as int) == text@.subrange(start as int, start + k),
                forall|q: int|
                    0 <= q < r@.len() ==> 1 <= #[trigger] r@[q] <= k && start + r@[q] <= text@.len()
                        && self@.contains(text@.subrange(start as int, start + r@[q])),
                forall|q1: int, q2: int| 0 <= q1 < q2 < r@.len() ==> r@[q1] < r@[q2],
                forall|e: int|
                    start < e <= start + k && #[trigger] self@.contains(
                        text@.subrange(start as int, e),
                    ) ==> r@.contains((e - start) as usize),
            decreases n - (start + k),
        {
            let c = text[start + k];
            match self.find_child(a, c) {
                None => {
                    assert forall|e: int|
                        start < e <= text@.len() && #[trigger] self@.contains(
                            text@.subrange(start as int, e),
                        ) implies r@.contains((e - start) as usize) by {
                        if e > start + k {
                            let w = text@.subrange(start as int, e);
                            assert(self.index@.dom().contains(w));
                            assert(w.take(k + 1) =~= self.path(a as int).push(c));
                            assert(self.index@.dom().contains(w.take(k + 1)));
                        }
                    }
                    return r;
                },
                Some(m) => {
                    a = m;
                    k = k + 1;
                    assert(self.path(a as int) =~= text@.subrange(start as int, start + k));
                    let ghost r0 = r@;
                    if self.nodes[a].is_end {
                        r.push(k);
                    }
                    assert forall|e: int|
                        start < e <= start + k && #[trigger] self@.contains(
                            text@.subrange(start as int, e),
                        ) implies r@.contains((e - start) as usize) by {
                        if e == start + k {
                            assert(self.nodes@[a as int].is_end);
                            assert(r@[r@.len() - 1] == k);
                        } else {
                            assert(r0.contains((e - start) as usize));
                            let q = choose|q: int| 0 <= q < r0.len() && r0[q] == (e - start) as usize;
                            assert(r@[q] == (e - start) as usize);
                        }
                    }
                },
            }
        }
        r
    }
}

/// The set of the words of a list.
pub open spec fn word_set(ws: Seq<&str>) -> Set<Seq<char>> {
    ws.map_values(|w: &str| w@).to_set()
}

/// Build a prefix tree from a slice of words.
pub fn build_trie(words: &[&str]) -> (t: Trie)
    ensures
        t.wf(),
        t@ == word_set(words@),
{
    let mut t = Trie::new();
    let mut i: usize = 0;
    while i < words.len()
        invariant
            i <= words@.len(),
            t.wf(),
            t@ == word_set(words@.take(i as int)),
        decreases words.len() - i,
    {
        let w = crate::text::str_chars(words[i]);
        t.add(&w);
        assert(words@.take(i + 1).map_values(|w: &str| w@) =~= words@.take(i as int).map_values(
            |w: &str| w@,
        ).push(words@[i as int]@));
        proof {
            let prev = words@.take(i as int).map_values(|w: &str| w@);
            Seq::lemma_to_set_insert_commutes(prev, words@[i as int]@);
            assert(prev.push(words@[i as int]@) =~= prev + seq![words@[i as int]@]);
        }
        i = i + 1;
    }
    assert(words@.take(words@.len() as int) =~= words@);
    t
}

} // verus!
