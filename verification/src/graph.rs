//! The mathematical model of a node store.
//!
//! A [`Graph`] is a sequence of node states, addressed by the index that a
//! [`Node`] handle carries. Every contract on the store is stated over this
//! model: the structural operations are functions from graph to graph, the
//! traversals are functions from a graph and a node to a sequence.

use vstd::prelude::*;
use crate::text::{trim, trim_start};

verus! {

/// A handle on one node of a store.
///
/// Two handles are equal exactly when they denote the same node: a handle
/// holds nothing of the node but its place in the store that issued it.
#[derive(Clone, Copy, Debug, PartialEq, Eq, Hash, Structural)]
pub struct Node {
    pub id: usize,
}

/// What a node carries besides its name: a file path or a link.
pub enum DataState {
    File(Seq<char>),
    Link(Seq<char>),
}

/// Everything the store holds about one node.
pub struct NodeState {
    pub name: Seq<char>,
    pub icon: Seq<char>,
    pub is_expanded: bool,
    pub data: Option<DataState>,
    pub parent: Option<Node>,
    pub prev: Option<Node>,
    pub next: Option<Node>,
    pub children: Seq<Node>,
}

/// A witness that following parents always ends: every node ranks strictly
/// below its parent, and no rank exceeds `top`.
pub struct Ranking {
    pub rank: Seq<nat>,
    pub top: nat,
}

/// The state of a whole store.
pub struct Graph {
    pub nodes: Seq<NodeState>,
}

impl Graph {
    /// The graph with no node.
    pub open spec fn empty() -> Graph {
        Graph { nodes: Seq::empty() }
    }

    pub open spec fn len(self) -> nat {
        self.nodes.len()
    }

    /// Whether `n` denotes a node of this graph.
    pub open spec fn contains(self, n: Node) -> bool {
        (n.id as int) < self.nodes.len()
    }

    pub open spec fn at(self, n: Node) -> NodeState {
        self.nodes[n.id as int]
    }

    pub open spec fn name(self, n: Node) -> Seq<char> {
        self.at(n).name
    }

    pub open spec fn icon(self, n: Node) -> Seq<char> {
        self.at(n).icon
    }

    pub open spec fn is_expanded(self, n: Node) -> bool {
        self.at(n).is_expanded
    }

    pub open spec fn data(self, n: Node) -> Option<DataState> {
        self.at(n).data
    }

    pub open spec fn parent(self, n: Node) -> Option<Node> {
        self.at(n).parent
    }

    pub open spec fn prev(self, n: Node) -> Option<Node> {
        self.at(n).prev
    }

    pub open spec fn next(self, n: Node) -> Option<Node> {
        self.at(n).next
    }

    pub open spec fn children(self, n: Node) -> Seq<Node> {
        self.at(n).children
    }

    /// The handle that the next allocation will return.
    pub open spec fn fresh(self) -> Node {
        Node { id: self.nodes.len() as usize }
    }

    // ---------------------------------------------------------------
    // Well-formedness
    // ---------------------------------------------------------------

    /// The `j`-th child of `p` points back at `p`, and its sibling links are
    /// its neighbours in `p`'s list of children.
    pub open spec fn child_ok(self, p: Node, j: int) -> bool {
        let kids = self.children(p);
        let c = kids[j];
        &&& self.contains(c)
        &&& self.parent(c) == Some(p)
        &&& self.prev(c) == (if j > 0 { Some(kids[j - 1]) } else { None })
        &&& self.next(c) == (if j + 1 < kids.len() { Some(kids[j + 1]) } else { None })
    }

    /// A node with a parent stands among that parent's children; a node
    /// without one has no siblings.
    pub open spec fn parent_ok(self, n: Node) -> bool {
        match self.parent(n) {
            Some(p) => self.contains(p) && self.children(p).contains(n),
            None => self.prev(n) is None && self.next(n) is None,
        }
    }

    /// The name is trimmed and the icon has no leading white space.
    pub open spec fn text_ok(self, n: Node) -> bool {
        &&& trim(self.name(n)) == self.name(n)
        &&& trim_start(self.icon(n)) == self.icon(n)
    }

    pub open spec fn node_ok(self, n: Node) -> bool {
        &&& self.parent_ok(n)
        &&& self.text_ok(n)
        &&& self.children(n).no_duplicates()
        &&& forall|j: int| 0 <= j < self.children(n).len() ==> #[trigger] self.child_ok(n, j)
    }

    /// Whether `r` ranks every node strictly below its parent.
    pub open spec fn ranked_by(self, r: Ranking) -> bool {
        &&& r.rank.len() == self.nodes.len()
        &&& forall|x: Node|
            #![trigger self.at(x)]
            self.contains(x) ==> {
                &&& r.rank[x.id as int] <= r.top
                &&& (self.parent(x) matches Some(p) ==> self.contains(p) && r.rank[x.id as int]
                    < r.rank[p.id as int])
            }
    }

    /// Following parents from any node ends.
    pub open spec fn acyclic(self) -> bool {
        exists|r: Ranking| self.ranked_by(r)
    }

    /// Some ranking of this graph, when it is acyclic.
    pub open spec fn ranking(self) -> Ranking {
        choose|r: Ranking| self.ranked_by(r)
    }

    /// A bound on the number of nodes below `n` on any downward path.
    pub open spec fn height(self, n: Node) -> nat {
        self.ranking().rank[n.id as int]
    }

    /// A bound on the number of nodes above `n`.
    pub open spec fn depth_bound(self, n: Node) -> nat {
        (self.ranking().top - self.ranking().rank[n.id as int]) as nat
    }

    /// The invariant of a store: every link has its counterpart, no node
    /// occurs twice among the children of a node, following parents ends,
    /// and names and icons are kept trimmed.
    pub open spec fn wf(self) -> bool {
        &&& self.nodes.len() <= usize::MAX
        &&& self.acyclic()
        &&& forall|n: Node| self.contains(n) ==> #[trigger] self.node_ok(n)
    }

    /// Whether `a` is `x` or stands above it.
    pub open spec fn ancestor_or_self(self, a: Node, x: Node) -> bool
        decreases self.depth_bound(x),
        when self.acyclic() && self.contains(x)
        via Self::ancestor_or_self_ends
    {
        a == x || match self.parent(x) {
            Some(p) => self.ancestor_or_self(a, p),
            None => false,
        }
    }

    #[via_fn]
    proof fn ancestor_or_self_ends(self, a: Node, x: Node) {
        let r = self.ranking();
        assert(self.ranked_by(r));
        if self.parent(x) is Some {
            let p = self.parent(x)->0;
            assert(self.at(x).parent == Some(p));
            assert(self.contains(p));
            assert(self.at(p).parent == self.parent(p));
            assert(r.rank[p.id as int] <= r.top);
        }
    }

    /// The position of `n` among the children of its parent `p`.
    pub open spec fn position(self, p: Node, n: Node) -> int {
        choose|i: int| 0 <= i < self.children(p).len() && self.children(p)[i] == n
    }

    // ---------------------------------------------------------------
    // Operations
    // ---------------------------------------------------------------

    /// The graph with one more node: collapsed, without data, parent,
    /// siblings or children.
    pub open spec fn with_node(self, name: Seq<char>, icon: Seq<char>) -> Graph {
        Graph {
            nodes: self.nodes.push(
                NodeState {
                    name,
                    icon,
                    is_expanded: false,
                    data: None,
                    parent: None,
                    prev: None,
                    next: None,
                    children: Seq::empty(),
                },
            ),
        }
    }

    pub open spec fn with_name(self, n: Node, name: Seq<char>) -> Graph {
        Graph { nodes: self.nodes.update(n.id as int, NodeState { name, ..self.at(n) }) }
    }

    pub open spec fn with_icon(self, n: Node, icon: Seq<char>) -> Graph {
        Graph { nodes: self.nodes.update(n.id as int, NodeState { icon, ..self.at(n) }) }
    }

    pub open spec fn with_expanded(self, n: Node, is_expanded: bool) -> Graph {
        Graph { nodes: self.nodes.update(n.id as int, NodeState { is_expanded, ..self.at(n) }) }
    }

    pub open spec fn with_data(self, n: Node, data: Option<DataState>) -> Graph {
        Graph { nodes: self.nodes.update(n.id as int, NodeState { data, ..self.at(n) }) }
    }

    /// The graph in which `n` has become the `i`-th child of `p`: `n` points
    /// at `p` and at its two new neighbours, and they point at `n`.
    pub open spec fn attach(self, p: Node, i: int, n: Node) -> Graph {
        let kids = self.children(p);
        let before = if 0 < i <= kids.len() { Some(kids[i - 1]) } else { None };
        let after = if 0 <= i < kids.len() { Some(kids[i]) } else { None };
        Graph {
            nodes: Seq::new(
                self.nodes.len(),
                |k: int|
                    {
                        let s = self.nodes[k];
                        if k == n.id {
                            NodeState { parent: Some(p), prev: before, next: after, ..s }
                        } else if k == p.id {
                            NodeState { children: kids.insert(i, n), ..s }
                        } else if before matches Some(b) && k == b.id {
                            NodeState { next: Some(n), ..s }
                        } else if after matches Some(a) && k == a.id {
                            NodeState { prev: Some(n), ..s }
                        } else {
                            s
                        }
                    },
            ),
        }
    }

    /// The graph in which the `i`-th child of `p` has left it: the child
    /// keeps its own children but has no parent and no siblings, and its two
    /// former neighbours point at each other.
    pub open spec fn detach(self, p: Node, i: int) -> Graph {
        let kids = self.children(p);
        let c = kids[i];
        let before = if 0 < i { Some(kids[i - 1]) } else { None };
        let after = if i + 1 < kids.len() { Some(kids[i + 1]) } else { None };
        Graph {
            nodes: Seq::new(
                self.nodes.len(),
                |k: int|
                    {
                        let s = self.nodes[k];
                        if k == c.id {
                            NodeState { parent: None, prev: None, next: None, ..s }
                        } else if k == p.id {
                            NodeState { children: kids.remove(i), ..s }
                        } else if before matches Some(b) && k == b.id {
                            NodeState { next: after, ..s }
                        } else if after matches Some(a) && k == a.id {
                            NodeState { prev: before, ..s }
                        } else {
                            s
                        }
                    },
            ),
        }
    }

    /// The graph in which `n` has left its parent, if it had one.
    pub open spec fn released(self, n: Node) -> Graph {
        match self.parent(n) {
            Some(p) => self.detach(p, self.position(p, n)),
            None => self,
        }
    }

    /// Whether `other` has the same nodes with the same links, whatever
    /// their names, icons, flags and data.
    pub open spec fn same_links(self, other: Graph) -> bool {
        &&& self.nodes.len() == other.nodes.len()
        &&& forall|x: Node|
            #![trigger other.at(x)]
            self.contains(x) ==> {
                &&& self.parent(x) == other.parent(x)
                &&& self.prev(x) == other.prev(x)
                &&& self.next(x) == other.next(x)
                &&& self.children(x) == other.children(x)
            }
    }
}

} // verus!
