//! The hierarchical blacklist: a trie over path components.
//!
//! A blacklisted directory excludes everything below it. The index is built
//! once from the configured blacklist roots and then only read; it is
//! replaced, never edited, when the configuration changes.

use vstd::prelude::*;
use crate::paths::{components, path_components, seqs};
use crate::text::same_chars;

verus! {

/// The blacklist `marked` covers a path with components `comps`: one of the
/// path's prefixes, the whole path included, is blacklisted.
pub open spec fn covers(marked: Set<Seq<Seq<char>>>, comps: Seq<Seq<char>>) -> bool {
    exists|k: int| 0 <= k <= comps.len() && marked.contains(#[trigger] comps.take(k))
}

/// One node of the trie. The nodes live in one vector; a node names its
/// children by their index.
pub struct BlacklistTrieNode {
    name: Vec<char>,
    children: Vec<usize>,
    is_blacklisted_here: bool,
    path: Ghost<Seq<Seq<char>>>,
    parent: Ghost<int>,
}

/// The blacklist index. Its view is the set of blacklisted paths, each as
/// its sequence of components.
pub struct BlacklistTrie {
    nodes: Vec<BlacklistTrieNode>,
}

impl BlacklistTrie {
    spec fn len(&self) -> int {
        self.nodes@.len() as int
    }

    spec fn path_at(&self, i: int) -> Seq<Seq<char>> {
        self.nodes@[i].path@
    }

    spec fn name_at(&self, i: int) -> Seq<char> {
        self.nodes@[i].name@
    }

    spec fn parent_at(&self, i: int) -> int {
        self.nodes@[i].parent@
    }

    spec fn marked_at(&self, i: int) -> bool {
        self.nodes@[i].is_blacklisted_here
    }

    spec fn child_at(&self, i: int, k: int) -> int {
        self.nodes@[i].children@[k] as int
    }

    spec fn child_count(&self, i: int) -> int {
        self.nodes@[i].children@.len() as int
    }

    spec fn is_child(&self, i: int, c: int) -> bool {
        exists|k: int| 0 <= k < self.child_count(i) && self.child_at(i, k) == c
    }

    /// The trie is a tree rooted at node 0 in which every node stands for
    /// one path and no path has two nodes.
    pub closed spec fn wf(&self) -> bool {
        &&& self.len() >= 1
        &&& self.path_at(0) == Seq::<Seq<char>>::empty()
        &&& forall|i: int, k: int|
            0 <= i < self.len() && 0 <= k < self.child_count(i) ==> {
                &&& 0 < #[trigger] self.child_at(i, k) < self.len()
                &&& self.parent_at(self.child_at(i, k)) == i
            }
        &&& forall|c: int|
            0 < c < self.len() ==> {
                &&& 0 <= #[trigger] self.parent_at(c) < c
                &&& self.is_child(self.parent_at(c), c)
                &&& self.path_at(c) == self.path_at(self.parent_at(c)).push(self.name_at(c))
            }
        &&& forall|i: int, j: int|
            0 <= i < j < self.len() ==> #[trigger] self.path_at(i) != #[trigger] self.path_at(j)
    }

    /// The blacklisted paths.
    pub closed spec fn view(&self) -> Set<Seq<Seq<char>>> {
        Set::new(
            |p: Seq<Seq<char>>|
                exists|i: int| 0 <= i < self.len() && self.marked_at(i) && self.path_at(i) == p,
        )
    }

    proof fn lemma_no_node_below(&self, cur: int, name: Seq<char>)
        requires
            self.wf(),
            0 <= cur < self.len(),
            forall|k: int|
                0 <= k < self.child_count(cur) ==> self.name_at(#[trigger] self.child_at(cur, k))
                    != name,
        ensures
            forall|j: int|
                0 <= j < self.len() ==> #[trigger] self.path_at(j) != self.path_at(cur).push(name),
    {
        assert forall|j: int| 0 <= j < self.len() implies #[trigger] self.path_at(j)
            != self.path_at(cur).push(name) by {
            if self.path_at(j) == self.path_at(cur).push(name) {
                assert(self.path_at(j).len() > 0);
                assert(j != 0);
                let p = self.parent_at(j);
                let whole = self.path_at(p).push(self.name_at(j));
                assert(whole.drop_last() =~= self.path_at(p));
                assert(self.path_at(cur).push(name).drop_last() =~= self.path_at(cur));
                assert(whole.last() == self.name_at(j));
                assert(self.path_at(cur).push(name).last() == name);
                assert(self.path_at(p) == self.path_at(cur));
                assert(p == cur);
                assert(self.is_child(p, j));
                let k = choose|k: int| 0 <= k < self.child_count(p) && self.child_at(p, k) == j;
                assert(self.name_at(self.child_at(cur, k)) != name);
                assert(false);
            }
        }
    }

    proof fn lemma_ancestor_exists(&self, j: int, m: int) -> (a: int)
        requires
            self.wf(),
            0 <= j < self.len(),
            0 <= m <= self.path_at(j).len(),
        ensures
            0 <= a < self.len(),
            self.path_at(a) == self.path_at(j).take(m),
        decreases j,
    {
        if m == self.path_at(j).len() {
            assert(self.path_at(j).take(m) =~= self.path_at(j));
            j
        } else {
            assert(j != 0);
            let p = self.parent_at(j);
            assert(self.path_at(j).take(m) =~= self.path_at(p).take(m));
            self.lemma_ancestor_exists(p, m)
        }
    }

    proof fn lemma_nothing_beyond(&self, cur: int, comps: Seq<Seq<char>>, k: int)
        requires
            self.wf(),
            0 <= cur < self.len(),
            0 <= k < comps.len(),
            self.path_at(cur) == comps.take(k),
            forall|x: int|
                0 <= x < self.child_count(cur) ==> self.name_at(#[trigger] self.child_at(cur, x))
                    != comps[k],
        ensures
            forall|m: int| k < m <= comps.len() ==> !self@.contains(#[trigger] comps.take(m)),
    {
        self.lemma_no_node_below(cur, comps[k]);
        assert(comps.take(k).push(comps[k]) =~= comps.take(k + 1));
        assert forall|m: int| k < m <= comps.len() implies !self@.contains(
            #[trigger] comps.take(m),
        ) by {
            if self@.contains(comps.take(m)) {
                let j = choose|j: int|
                    0 <= j < self.len() && self.marked_at(j) && self.path_at(j) == comps.take(m);
                let a = self.lemma_ancestor_exists(j, k + 1);
                assert(comps.take(m).take(k + 1) =~= comps.take(k + 1));
                assert(self.path_at(a) == self.path_at(cur).push(comps[k]));
                assert(false);
            }
        }
    }

    /// An index that blacklists nothing.
    pub fn new() -> (out: BlacklistTrie)
        ensures
            out.wf(),
            out@ == Set::<Seq<Seq<char>>>::empty(),
    {
        let root = BlacklistTrieNode {
            name: Vec::new(),
            children: Vec::new(),
            is_blacklisted_here: false,
            path: Ghost(Seq::empty()),
            parent: Ghost(0),
        };
        let mut nodes: Vec<BlacklistTrieNode> = Vec::new();
        nodes.push(root);
        let out = BlacklistTrie { nodes };
        assert(out@ =~= Set::<Seq<Seq<char>>>::empty());
        out
    }

    /// The child of node `cur` that is called `name`.
    fn find_child(&self, cur: usize, name: &[char]) -> (r: Option<usize>)
        requires
            self.wf(),
            cur < self.len(),
        ensures
            match r {
                Some(c) => 0 < c < self.len() && self.parent_at(c as int) == cur
                    && self.name_at(c as int) == name@,
                None => forall|k: int|
                    0 <= k < self.child_count(cur as int) ==> self.name_at(
                        #[trigger] self.child_at(cur as int, k),
                    ) != name@,
            },
    {
        let node = &self.nodes[cur];
        let mut k: usize = 0;
        while k < node.children.len()
            invariant
                self.wf(),
                cur < self.len(),
                node == self.nodes@[cur as int],
                k <= node.children@.len(),
                forall|x: int|
                    0 <= x < k ==> self.name_at(#[trigger] self.child_at(cur as int, x)) != name@,
            decreases node.children.len() - k,
        {
            let c = node.children[k];
            assert(c as int == self.child_at(cur as int, k as int));
            if same_chars(self.nodes[c].name.as_slice(), name) {
                return Some(c);
            }
            k += 1;
        }
        None
    }

    /// Whether `path` or one of its ancestors is blacklisted.
    pub fn is_path_or_ancestor_blacklisted(&self, path: &str) -> (b: bool)
        requires
            self.wf(),
        ensures
            b == covers(self@, components(path@)),
    {
        let comps = path_components(path);
        let ghost all = seqs(comps@);
        assert(all.take(0) =~= Seq::<Seq<char>>::empty());
        if self.nodes[0].is_blacklisted_here {
            assert(self@.contains(all.take(0)));
            return true;
        }
        let mut cur: usize = 0;
        let mut k: usize = 0;
        while k < comps.len()
            invariant
                self.wf(),
                all == seqs(comps@),
                all == components(path@),
                k <= comps.len(),
                cur < self.len(),
                self.path_at(cur as int) == all.take(k as int),
                forall|m: int| 0 <= m <= k ==> !self@.contains(#[trigger] all.take(m)),
            decreases comps.len() - k,
        {
            assert(all[k as int] == comps@[k as int]@);
            match self.find_child(cur, comps[k].as_slice()) {
                Some(c) => {
                    assert(all.take(k as int).push(all[k as int]) =~= all.take(k + 1));
                    if self.nodes[c].is_blacklisted_here {
                        assert(self@.contains(all.take(k + 1)));
                        return true;
                    }
                    cur = c;
                },
                None => {
                    proof {
                        self.lemma_nothing_beyond(cur as int, all, k as int);
                    }
                    return false;
                },
            }
            k += 1;
        }
        false
    }

    /// Whether `path` or one of its ancestors is blacklisted. A path that is
    /// not valid text is never matched.
    pub fn is_blacklisted_or_descendant(&self, path: Option<&str>) -> (b: bool)
        requires
            self.wf(),
        ensures
            b == (path matches Some(p) && covers(self@, components(p@))),
    {
        match path {
            Some(p) => self.is_path_or_ancestor_blacklisted(p),
            None => false,
        }
    }

    /// Blacklists `path`, unless it is not valid text: such a path is not
    /// inserted.
    pub fn insert_path(&mut self, path: Option<&str>)
        requires
            old(self).wf(),
        ensures
            final(self).wf(),
            final(self)@ == (match path {
                Some(p) => old(self)@.insert(components(p@)),
                None => old(self)@,
            }),
    {
        match path {
            Some(p) => self.insert(p),
            None => {},
        }
    }

    /// Blacklists `path`. A path without components is the root: it
    /// blacklists everything.
    pub fn insert(&mut self, path: &str)
        requires
            old(self).wf(),
        ensures
            final(self).wf(),
            final(self)@ == old(self)@.insert(components(path@)),
    {
        let mut comps = path_components(path);
        let ghost all = seqs(comps@);
        let n = comps.len();
        assert(all.take(0) =~= Seq::<Seq<char>>::empty());
        let mut cur: usize = 0;
        let mut k: usize = 0;
        while k < n
            invariant
                self.wf(),
                self@ == old(self)@,
                n == comps.len(),
                all.len() == n,
                all == components(path@),
                forall|j: int| k <= j < n ==> comps@[j]@ == all[j],
                k <= n,
                cur < self.len(),
                self.path_at(cur as int) == all.take(k as int),
            decreases n - k,
        {
            assert(all.take(k as int).push(all[k as int]) =~= all.take(k + 1));
            match self.find_child(cur, comps[k].as_slice()) {
                Some(c) => {
                    cur = c;
                },
                None => {
                    proof {
                        self.lemma_no_node_below(cur as int, all[k as int]);
                    }
                    let ghost before = *self;
                    let idx = self.nodes.len();
                    let mut name: Vec<char> = Vec::new();
                    std::mem::swap(&mut name, &mut comps[k]);
                    let node = BlacklistTrieNode {
                        name,
                        children: Vec::new(),
                        is_blacklisted_here: false,
                        path: Ghost(all.take(k + 1)),
                        parent: Ghost(cur as int),
                    };
                    self.nodes.push(node);
                    self.nodes[cur].children.push(idx);
                    proof {
                        let last = before.child_count(cur as int);
                        assert(self.child_at(cur as int, last) == idx);
                        assert forall|i: int, x: int|
                            0 <= i < self.len() && 0 <= x < self.child_count(i) implies {
                            &&& 0 < #[trigger] self.child_at(i, x) < self.len()
                            &&& self.parent_at(self.child_at(i, x)) == i
                        } by {
                            if i == cur && x == last {
                            } else {
                                assert(self.child_at(i, x) == before.child_at(i, x));
                            }
                        }
                        assert forall|c: int| 0 < c < self.len() implies {
                            &&& 0 <= #[trigger] self.parent_at(c) < c
                            &&& self.is_child(self.parent_at(c), c)
                            &&& self.path_at(c) == self.path_at(self.parent_at(c)).push(
                                self.name_at(c),
                            )
                        } by {
                            if c == idx {
                                assert(self.child_at(cur as int, last) == c);
                            } else {
                                let p = before.parent_at(c);
                                assert(before.is_child(p, c));
                                let x = choose|x: int|
                                    0 <= x < before.child_count(p) && before.child_at(p, x) == c;
                                assert(self.child_at(p, x) == c);
                            }
                        }
                        assert forall|i: int, j: int| 0 <= i < j < self.len() implies
                            #[trigger] self.path_at(i) != #[trigger] self.path_at(j) by {
                            if j == idx {
                                assert(before.path_at(i) != before.path_at(cur as int).push(
                                    all[k as int],
                                ));
                            } else {
                                assert(before.path_at(i) != before.path_at(j));
                            }
                        }
                        assert(self@ =~= before@) by {
                            assert forall|p: Seq<Seq<char>>| self@.contains(p)
                                == before@.contains(p) by {
                                if self@.contains(p) {
                                    let i = choose|i: int|
                                        0 <= i < self.len() && self.marked_at(i) && self.path_at(i)
                                            == p;
                                    assert(before.marked_at(i) && before.path_at(i) == p);
                                }
                                if before@.contains(p) {
                                    let i = choose|i: int|
                                        0 <= i < before.len() && before.marked_at(i)
                                            && before.path_at(i) == p;
                                    assert(self.marked_at(i) && self.path_at(i) == p);
                                }
                            }
                        }
                    }
                    cur = idx;
                },
            }
            k += 1;
        }
        assert(all.take(n as int) =~= all);
        let ghost before = *self;
        self.nodes[cur].is_blacklisted_here = true;
        proof {
            assert forall|i: int, x: int|
                0 <= i < self.len() && 0 <= x < self.child_count(i) implies {
                &&& 0 < #[trigger] self.child_at(i, x) < self.len()
                &&& self.parent_at(self.child_at(i, x)) == i
            } by {
                assert(self.child_at(i, x) == before.child_at(i, x));
            }
            assert forall|c: int| 0 < c < self.len() implies {
                &&& 0 <= #[trigger] self.parent_at(c) < c
                &&& self.is_child(self.parent_at(c), c)
                &&& self.path_at(c) == self.path_at(self.parent_at(c)).push(self.name_at(c))
            } by {
                let p = before.parent_at(c);
                assert(before.is_child(p, c));
                let x = choose|x: int| 0 <= x < before.child_count(p) && before.child_at(p, x) == c;
                assert(self.child_at(p, x) == c);
            }
            assert forall|i: int, j: int| 0 <= i < j < self.len() implies #[trigger] self.path_at(
                i,
            ) != #[trigger] self.path_at(j) by {
                assert(before.path_at(i) != before.path_at(j));
            }
            assert(self@ =~= before@.insert(all)) by {
                assert forall|p: Seq<Seq<char>>| self@.contains(p) == before@.insert(
                    all,
                ).contains(p) by {
                    if self@.contains(p) {
                        let i = choose|i: int|
                            0 <= i < self.len() && self.marked_at(i) && self.path_at(i) == p;
                        if i != cur {
                            assert(before.marked_at(i) && before.path_at(i) == p);
                        }
                    }
                    if before@.contains(p) {
                        let i = choose|i: int|
                            0 <= i < before.len() && before.marked_at(i) && before.path_at(i) == p;
                        assert(self.marked_at(i) && self.path_at(i) == p);
                    }
                    if p == all {
                        assert(self.marked_at(cur as int) && self.path_at(cur as int) == p);
                    }
                }
            }
        }
    }
}

/// The blacklist is inherited downwards: it covers a path exactly when a
/// blacklisted path is a prefix of it, the path itself included. So what it
/// covers, it covers with everything below.
pub proof fn lemma_covers_iff_prefix_blacklisted(
    marked: Set<Seq<Seq<char>>>,
    comps: Seq<Seq<char>>,
)
    ensures
        covers(marked, comps) <==> exists|q: Seq<Seq<char>>|
            marked.contains(q) && #[trigger] q.is_prefix_of(comps),
        forall|longer: Seq<Seq<char>>|
            covers(marked, comps) && comps.is_prefix_of(longer) ==> #[trigger] covers(
                marked,
                longer,
            ),
{
    if covers(marked, comps) {
        let k = choose|k: int| 0 <= k <= comps.len() && marked.contains(#[trigger] comps.take(k));
        assert(comps.take(k).is_prefix_of(comps));
        assert forall|longer: Seq<Seq<char>>| comps.is_prefix_of(longer) implies #[trigger] covers(
            marked,
            longer,
        ) by {
            assert(longer.take(k) =~= comps.take(k));
        }
    }
    if exists|q: Seq<Seq<char>>| marked.contains(q) && #[trigger] q.is_prefix_of(comps) {
        let q = choose|q: Seq<Seq<char>>| marked.contains(q) && #[trigger] q.is_prefix_of(comps);
        assert(comps.take(q.len() as int) =~= q);
    }
}

} // verus!
