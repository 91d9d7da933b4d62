//! Why the operations of the model keep a graph well formed.

use vstd::prelude::*;
use crate::graph::{Graph, Node, Ranking};
use crate::text::{trim, trim_start};

verus! {

impl Graph {
    /// A child ranks strictly below its parent.
    pub proof fn lemma_parent_higher(self, x: Node)
        requires
            self.acyclic(),
            self.contains(x),
            self.parent(x) is Some,
        ensures
            self.contains(self.parent(x)->0),
            self.height(x) < self.height(self.parent(x)->0),
            self.depth_bound(self.parent(x)->0) < self.depth_bound(x),
    {
        let r = self.ranking();
        let _ = self.at(x);
        let _ = self.at(self.parent(x)->0);
    }

    /// The `j`-th child of a node of a well-formed graph.
    pub proof fn lemma_child(self, p: Node, j: int)
        requires
            self.wf(),
            self.contains(p),
            0 <= j < self.children(p).len(),
        ensures
            self.child_ok(p, j),
            self.contains(self.children(p)[j]),
            self.height(self.children(p)[j]) < self.height(p),
            self.children(p)[j] != p,
    {
        assert(self.node_ok(p));
        assert(self.child_ok(p, j));
        self.lemma_parent_higher(self.children(p)[j]);
    }

    /// The parent of whoever stands above `x` or is `x` stands above `x`.
    pub proof fn lemma_parent_of_ancestor(self, a: Node, q: Node, x: Node)
        requires
            self.acyclic(),
            self.contains(x),
            self.contains(a),
            self.parent(a) == Some(q),
            self.ancestor_or_self(a, x),
        ensures
            self.ancestor_or_self(q, x),
        decreases self.depth_bound(x),
    {
        if a == x {
            self.lemma_parent_higher(x);
            assert(self.ancestor_or_self(q, q));
        } else {
            let p = self.parent(x)->0;
            self.lemma_parent_higher(x);
            self.lemma_parent_of_ancestor(a, q, p);
        }
    }

    /// Nobody stands above a node and below it at once.
    pub proof fn lemma_ancestor_height(self, a: Node, x: Node)
        requires
            self.acyclic(),
            self.contains(x),
            self.ancestor_or_self(a, x),
        ensures
            self.contains(a),
            self.height(x) <= self.height(a),
        decreases self.depth_bound(x),
    {
        if a != x {
            self.lemma_parent_higher(x);
            self.lemma_ancestor_height(a, self.parent(x)->0);
        }
    }

    /// Allocation keeps a graph well formed.
    pub proof fn lemma_with_node_wf(self, name: Seq<char>, icon: Seq<char>)
        requires
            self.wf(),
            self.nodes.len() < usize::MAX,
            trim(name) == name,
            trim_start(icon) == icon,
        ensures
            self.with_node(name, icon).wf(),
    {
        let h = self.with_node(name, icon);
        let r = self.ranking();
        let r2 = Ranking { rank: r.rank.push(0), top: r.top };
        assert forall|x: Node| h.contains(x) implies #[trigger] h.node_ok(x) by {
            if x.id < self.nodes.len() {
                assert(self.node_ok(x));
                assert(h.at(x) == self.at(x));
                assert forall|j: int| 0 <= j < h.children(x).len() implies #[trigger] h.child_ok(
                    x,
                    j,
                ) by {
                    assert(self.child_ok(x, j));
                }
                if self.parent(x) is Some {
                    let _ = self.at(self.parent(x)->0);
                }
            } else {
                assert(h.children(x) =~= Seq::<Node>::empty());
            }
        }
        assert(h.ranked_by(r2)) by {
            assert forall|x: Node| #![trigger h.at(x)] h.contains(x) implies {
                &&& r2.rank[x.id as int] <= r2.top
                &&& (h.parent(x) matches Some(p) ==> h.contains(p) && r2.rank[x.id as int]
                    < r2.rank[p.id as int])
            } by {
                if x.id < self.nodes.len() {
                    let _ = self.at(x);
                }
            }
        }
    }

    /// A change of names, icons, flags or data keeps a graph well formed as
    /// long as names and icons stay trimmed.
    pub proof fn lemma_same_links_wf(self, h: Graph)
        requires
            self.wf(),
            self.same_links(h),
            forall|x: Node| h.contains(x) ==> #[trigger] h.text_ok(x),
        ensures
            h.wf(),
    {
        let r = self.ranking();
        assert(h.ranked_by(r)) by {
            assert forall|x: Node| #![trigger h.at(x)] h.contains(x) implies {
                &&& r.rank[x.id as int] <= r.top
                &&& (h.parent(x) matches Some(p) ==> h.contains(p) && r.rank[x.id as int]
                    < r.rank[p.id as int])
            } by {
                let _ = self.at(x);
            }
        }
        assert forall|x: Node| h.contains(x) implies #[trigger] h.node_ok(x) by {
            assert(self.node_ok(x));
            let _ = h.at(x);
            assert forall|j: int| 0 <= j < h.children(x).len() implies #[trigger] h.child_ok(
                x,
                j,
            ) by {
                assert(self.child_ok(x, j));
                let _ = h.at(h.children(x)[j]);
            }
            if self.parent(x) is Some {
                let _ = h.at(self.parent(x)->0);
            }
        }
    }

    /// What `attach` leaves as it was, and what it changes.
    pub proof fn lemma_attach_frame(self, p: Node, i: int, n: Node)
        requires
            self.wf(),
            self.contains(p),
            self.contains(n),
            0 <= i <= self.children(p).len(),
            self.parent(n) is None,
            !self.ancestor_or_self(n, p),
        ensures
            n != p,
            !self.children(p).contains(n),
            !self.children(p).contains(p),
            self.attach(p, i, n).nodes.len() == self.nodes.len(),
            self.attach(p, i, n).children(p) == self.children(p).insert(i, n),
            self.attach(p, i, n).parent(n) == Some(p),
            forall|x: Node|
                #![trigger self.attach(p, i, n).at(x)]
                self.contains(x) ==> {
                    let h = self.attach(p, i, n);
                    &&& h.name(x) == self.name(x)
                    &&& h.icon(x) == self.icon(x)
                    &&& h.is_expanded(x) == self.is_expanded(x)
                    &&& h.data(x) == self.data(x)
                    &&& (x != p ==> h.children(x) == self.children(x))
                    &&& (x != n ==> h.parent(x) == self.parent(x))
                },
    {
        let kids = self.children(p);
        assert(self.ancestor_or_self(p, p));
        assert(self.node_ok(p));
        assert forall|j: int| 0 <= j < kids.len() implies kids[j] != n && kids[j] != p by {
            self.lemma_child(p, j);
        }
    }

    /// Attaching a parentless node under a node that it does not stand
    /// above keeps a graph well formed.
    pub proof fn lemma_attach_wf(self, p: Node, i: int, n: Node)
        requires
            self.wf(),
            self.contains(p),
            self.contains(n),
            0 <= i <= self.children(p).len(),
            self.parent(n) is None,
            !self.ancestor_or_self(n, p),
        ensures
            self.attach(p, i, n).wf(),
    {
        let h = self.attach(p, i, n);
        let kids = self.children(p);
        let kids2 = kids.insert(i, n);
        self.lemma_attach_frame(p, i, n);
        assert(self.node_ok(p));
        assert(self.node_ok(n));
        assert forall|j: int| 0 <= j < kids.len() implies #[trigger] self.child_ok(p, j) && kids[j]
            != n && kids[j] != p by {
            self.lemma_child(p, j);
        }
        self.lemma_attach_ranked(p, i, n);
        assert forall|x: Node| h.contains(x) implies #[trigger] h.node_ok(x) by {
            assert(self.node_ok(x));
            if x == p {
                assert(h.children(p) == kids2);
                assert(kids2.no_duplicates()) by {
                    assert forall|a: int, b: int|
                        0 <= a < kids2.len() && 0 <= b < kids2.len() && a != b implies kids2[a]
                        != kids2[b] by {
                        let a0 = if a < i { a } else { a - 1 };
                        let b0 = if b < i { b } else { b - 1 };
                        if a != i && b != i {
                            assert(kids2[a] == kids[a0]);
                            assert(kids2[b] == kids[b0]);
                        } else if a == i {
                            assert(kids2[b] == kids[b0]);
                        } else {
                            assert(kids2[a] == kids[a0]);
                        }
                    }
                }
                assert forall|j: int| 0 <= j < kids2.len() implies #[trigger] h.child_ok(p, j) by {
                    if j < i {
                        assert(self.child_ok(p, j));
                        assert(kids2[j] == kids[j]);
                    } else if j == i {
                        assert(kids2[j] == n);
                    } else {
                        assert(self.child_ok(p, j - 1));
                        assert(kids2[j] == kids[j - 1]);
                    }
                }
            } else {
                assert(h.children(x) == self.children(x));
                assert forall|j: int| 0 <= j < h.children(x).len() implies #[trigger] h.child_ok(
                    x,
                    j,
                ) by {
                    assert(self.child_ok(x, j));
                    let c = self.children(x)[j];
                    assert(self.parent(c) == Some(x));
                    assert(c != n);
                    if kids.contains(c) {
                        let k = choose|k: int| 0 <= k < kids.len() && kids[k] == c;
                        assert(self.child_ok(p, k));
                    }
                    assert(h.at(c).parent == self.at(c).parent);
                    assert(h.at(c).prev == self.at(c).prev);
                    assert(h.at(c).next == self.at(c).next);
                }
            }
            if x == n {
                assert(kids2[i] == n);
                assert(h.children(p).contains(n));
            } else {
                assert(h.parent(x) == self.parent(x));
                match self.parent(x) {
                    Some(q) => {
                        let k = choose|k: int|
                            0 <= k < self.children(q).len() && self.children(q)[k] == x;
                        if q == p {
                            if k < i {
                                assert(kids2[k] == x);
                            } else {
                                assert(kids2[k + 1] == x);
                            }
                        } else {
                            assert(h.children(q)[k] == x);
                        }
                    },
                    None => {
                        if kids.contains(x) {
                            let k = choose|k: int| 0 <= k < kids.len() && kids[k] == x;
                            assert(self.child_ok(p, k));
                        }
                    },
                }
            }
        }
    }

    /// Attaching a parentless node under a node that it does not stand
    /// above leaves the graph acyclic.
    pub proof fn lemma_attach_ranked(self, p: Node, i: int, n: Node)
        requires
            self.wf(),
            self.contains(p),
            self.contains(n),
            0 <= i <= self.children(p).len(),
            self.parent(n) is None,
            !self.ancestor_or_self(n, p),
        ensures
            self.attach(p, i, n).acyclic(),
    {
        let h = self.attach(p, i, n);
        let r = self.ranking();
        let bump = r.rank[n.id as int] + 1;
        let r2 = Ranking {
            rank: Seq::new(
                r.rank.len(),
                |k: int|
                    if self.ancestor_or_self(Node { id: k as usize }, p) {
                        r.rank[k] + bump
                    } else {
                        r.rank[k]
                    },
            ),
            top: r.top + bump,
        };
        self.lemma_attach_frame(p, i, n);
        assert(self.ancestor_or_self(p, p));
        assert forall|x: Node| #![trigger h.at(x)] h.contains(x) implies {
            &&& r2.rank[x.id as int] <= r2.top
            &&& (h.parent(x) matches Some(q) ==> h.contains(q) && r2.rank[x.id as int]
                < r2.rank[q.id as int])
        } by {
            let _ = self.at(x);
            assert(Node { id: x.id as int as usize } == x);
            if x == n {
                assert(Node { id: p.id as int as usize } == p);
            } else if self.parent(x) is Some {
                let q = self.parent(x)->0;
                let _ = self.at(q);
                assert(Node { id: q.id as int as usize } == q);
                if self.ancestor_or_self(x, p) {
                    self.lemma_parent_of_ancestor(x, q, p);
                }
            }
        }
        assert(h.ranked_by(r2));
    }

    /// What `detach` leaves as it was, and what it changes.
    pub proof fn lemma_detach_frame(self, p: Node, i: int)
        requires
            self.wf(),
            self.contains(p),
            0 <= i < self.children(p).len(),
        ensures
            self.contains(self.children(p)[i]),
            self.children(p)[i] != p,
            self.detach(p, i).nodes.len() == self.nodes.len(),
            self.detach(p, i).children(p) == self.children(p).remove(i),
            self.detach(p, i).parent(self.children(p)[i]) is None,
            forall|x: Node|
                #![trigger self.detach(p, i).at(x)]
                self.contains(x) ==> {
                    let h = self.detach(p, i);
                    &&& h.name(x) == self.name(x)
                    &&& h.icon(x) == self.icon(x)
                    &&& h.is_expanded(x) == self.is_expanded(x)
                    &&& h.data(x) == self.data(x)
                    &&& (x != p ==> h.children(x) == self.children(x))
                    &&& (x != self.children(p)[i] ==> h.parent(x) == self.parent(x))
                },
    {
        self.lemma_child(p, i);
    }

    /// Detaching a child keeps a graph well formed.
    pub proof fn lemma_detach_wf(self, p: Node, i: int)
        requires
            self.wf(),
            self.contains(p),
            0 <= i < self.children(p).len(),
        ensures
            self.detach(p, i).wf(),
    {
        let h = self.detach(p, i);
        let kids = self.children(p);
        let kids2 = kids.remove(i);
        let c = kids[i];
        let r = self.ranking();
        self.lemma_detach_frame(p, i);
        assert(self.node_ok(p));
        assert forall|j: int| 0 <= j < kids.len() implies #[trigger] self.child_ok(p, j) && kids[j]
            != p by {
            self.lemma_child(p, j);
        }
        assert(h.ranked_by(r)) by {
            assert forall|x: Node| #![trigger h.at(x)] h.contains(x) implies {
                &&& r.rank[x.id as int] <= r.top
                &&& (h.parent(x) matches Some(q) ==> h.contains(q) && r.rank[x.id as int]
                    < r.rank[q.id as int])
            } by {
                let _ = self.at(x);
            }
        }
        assert forall|x: Node| h.contains(x) implies #[trigger] h.node_ok(x) by {
            assert(self.node_ok(x));
            if x == p {
                assert(h.children(p) == kids2);
                assert forall|j: int| 0 <= j < kids2.len() implies #[trigger] h.child_ok(p, j) by {
                    if j < i {
                        assert(self.child_ok(p, j));
                        assert(kids2[j] == kids[j]);
                    } else {
                        assert(self.child_ok(p, j + 1));
                        assert(kids2[j] == kids[j + 1]);
                    }
                }
            } else {
                assert(h.children(x) == self.children(x));
                assert forall|j: int| 0 <= j < h.children(x).len() implies #[trigger] h.child_ok(
                    x,
                    j,
                ) by {
                    assert(self.child_ok(x, j));
                    let d = self.children(x)[j];
                    assert(self.parent(d) == Some(x));
                    if kids.contains(d) {
                        let k = choose|k: int| 0 <= k < kids.len() && kids[k] == d;
                        assert(self.child_ok(p, k));
                    }
                    assert(h.at(d).parent == self.at(d).parent);
                    assert(h.at(d).prev == self.at(d).prev);
                    assert(h.at(d).next == self.at(d).next);
                }
            }
            if x != c {
                assert(h.parent(x) == self.parent(x));
                match self.parent(x) {
                    Some(q) => {
                        let k = choose|k: int|
                            0 <= k < self.children(q).len() && self.children(q)[k] == x;
                        if q == p {
                            if k < i {
                                assert(kids2[k] == x);
                            } else {
                                assert(kids2[k - 1] == x);
                            }
                        } else {
                            assert(h.children(q)[k] == x);
                        }
                    },
                    None => {
                        if kids.contains(x) {
                            let k = choose|k: int| 0 <= k < kids.len() && kids[k] == x;
                            assert(self.child_ok(p, k));
                        }
                    },
                }
            }
        }
    }

    /// The empty graph is well formed.
    pub proof fn lemma_empty_wf()
        ensures
            Graph::empty().wf(),
    {
        let g = Graph::empty();
        let r = Ranking { rank: Seq::empty(), top: 0 };
        assert(g.ranked_by(r));
    }

    /// Renaming a node to a trimmed name keeps a graph well formed.
    pub proof fn lemma_with_name_wf(self, n: Node, name: Seq<char>)
        requires
            self.wf(),
            self.contains(n),
            trim(name) == name,
        ensures
            self.with_name(n, name).wf(),
    {
        let h = self.with_name(n, name);
        assert forall|x: Node| h.contains(x) implies #[trigger] h.text_ok(x) by {
            assert(self.node_ok(x));
        }
        self.lemma_same_links_wf(h);
    }

    /// A new icon without leading white space keeps a graph well formed.
    pub proof fn lemma_with_icon_wf(self, n: Node, icon: Seq<char>)
        requires
            self.wf(),
            self.contains(n),
            trim_start(icon) == icon,
        ensures
            self.with_icon(n, icon).wf(),
    {
        let h = self.with_icon(n, icon);
        assert forall|x: Node| h.contains(x) implies #[trigger] h.text_ok(x) by {
            assert(self.node_ok(x));
        }
        self.lemma_same_links_wf(h);
    }

    /// Expanding or collapsing a node keeps a graph well formed.
    pub proof fn lemma_with_expanded_wf(self, n: Node, is_expanded: bool)
        requires
            self.wf(),
            self.contains(n),
        ensures
            self.with_expanded(n, is_expanded).wf(),
    {
        let h = self.with_expanded(n, is_expanded);
        assert forall|x: Node| h.contains(x) implies #[trigger] h.text_ok(x) by {
            assert(self.node_ok(x));
        }
        self.lemma_same_links_wf(h);
    }

    /// New data on a node keeps a graph well formed.
    pub proof fn lemma_with_data_wf(self, n: Node, data: Option<crate::graph::DataState>)
        requires
            self.wf(),
            self.contains(n),
        ensures
            self.with_data(n, data).wf(),
    {
        let h = self.with_data(n, data);
        assert forall|x: Node| h.contains(x) implies #[trigger] h.text_ok(x) by {
            assert(self.node_ok(x));
        }
        self.lemma_same_links_wf(h);
    }

    /// Whoever stands above a node after a child has left its parent stood
    /// above it before.
    pub proof fn lemma_detach_ancestor(self, p: Node, i: int, a: Node, x: Node)
        requires
            self.wf(),
            self.contains(p),
            0 <= i < self.children(p).len(),
            self.contains(x),
            self.detach(p, i).ancestor_or_self(a, x),
        ensures
            self.ancestor_or_self(a, x),
        decreases self.detach(p, i).depth_bound(x),
    {
        let h = self.detach(p, i);
        self.lemma_detach_wf(p, i);
        self.lemma_detach_frame(p, i);
        if a != x {
            let q = h.parent(x)->0;
            assert(h.at(x).parent == Some(q));
            h.lemma_parent_higher(x);
            assert(self.parent(x) == Some(q));
            self.lemma_detach_ancestor(p, i, a, q);
        }
    }

    /// In a well-formed graph a node stands once among the children of its
    /// parent, at its position.
    pub proof fn lemma_position(self, p: Node, n: Node)
        requires
            self.wf(),
            self.contains(p),
            self.children(p).contains(n),
        ensures
            0 <= self.position(p, n) < self.children(p).len(),
            self.children(p)[self.position(p, n)] == n,
            forall|j: int|
                0 <= j < self.children(p).len() && self.children(p)[j] == n ==> j
                    == self.position(p, n),
            self.contains(n),
            self.parent(n) == Some(p),
    {
        assert(self.node_ok(p));
        let i = self.position(p, n);
        self.lemma_child(p, i);
    }

    /// A node with a parent stands among the children of that parent.
    pub proof fn lemma_parent_holds(self, n: Node)
        requires
            self.wf(),
            self.contains(n),
            self.parent(n) is Some,
        ensures
            self.contains(self.parent(n)->0),
            self.children(self.parent(n)->0).contains(n),
            !self.ancestor_or_self(n, self.parent(n)->0),
    {
        assert(self.node_ok(n));
        let p = self.parent(n)->0;
        self.lemma_parent_higher(n);
        if self.ancestor_or_self(n, p) {
            self.lemma_ancestor_height(n, p);
        }
    }

    /// A node that was just added to `before` has no parent in the graph
    /// that holds it, and stands above no node of `before`.
    pub proof fn lemma_fresh_is_apart(self, before: Graph, n: Node, x: Node)
        requires
            before.wf(),
            self.wf(),
            before.contains(x),
            n == before.fresh(),
            self.nodes.len() == before.nodes.len() + 1,
            self.parent(n) is None,
            forall|y: Node| before.contains(y) ==> #[trigger] self.at(y) == before.at(y),
        ensures
            self.contains(n),
            self.contains(x),
            !self.ancestor_or_self(n, x),
        decreases self.depth_bound(x),
    {
        assert(self.at(x) == before.at(x));
        assert(before.node_ok(x));
        if self.parent(x) is Some {
            let q = self.parent(x)->0;
            self.lemma_parent_higher(x);
            self.lemma_fresh_is_apart(before, n, q);
        }
    }

    /// The sibling links of a node are nodes of the graph, with the same
    /// parent, one place before and after it.
    pub proof fn lemma_siblings(self, n: Node)
        requires
            self.wf(),
            self.contains(n),
        ensures
            self.prev(n) matches Some(s) ==> self.contains(s) && self.parent(s) == self.parent(n)
                && self.next(s) == Some(n),
            self.next(n) matches Some(s) ==> self.contains(s) && self.parent(s) == self.parent(n)
                && self.prev(s) == Some(n),
            self.prev(n) is Some || self.next(n) is Some ==> self.parent(n) is Some,
    {
        assert(self.node_ok(n));
        if self.parent(n) is Some {
            let p = self.parent(n)->0;
            self.lemma_position(p, n);
            let i = self.position(p, n);
            self.lemma_child(p, i);
            if i > 0 {
                self.lemma_child(p, i - 1);
            }
            if i + 1 < self.children(p).len() {
                self.lemma_child(p, i + 1);
            }
        }
    }
}

} // verus!
