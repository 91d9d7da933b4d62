//! How a graph is written as a document node, and what a document node
//! becomes when it is read.

use vstd::prelude::*;
use crate::encoding::NodeView;
use crate::graph::{DataState, Graph, Node};
use crate::text::{trim, trim_start};

verus! {

/// The name that a document node gives: its last text, trimmed; the empty
/// name when it has no text.
pub open spec fn decoded_name(v: NodeView) -> Seq<char> {
    trim(
        if v.contents.len() > 0 {
            v.contents.last()
        } else {
            Seq::empty()
        },
    )
}

/// The data that a document node gives: its file if it has one, else its
/// link.
pub open spec fn decoded_data(v: NodeView) -> Option<DataState> {
    match v.data {
        Some(path) => Some(DataState::File(path)),
        None => match v.url {
            Some(link) => Some(DataState::Link(link)),
            None => None,
        },
    }
}

/// What is kept of a document node when it is read: one text, its name; the
/// icon without leading white space; a file or a link, not both; and the
/// same of each child, in order.
pub open spec fn normal(v: NodeView) -> NodeView
    decreases v,
{
    NodeView {
        icon: trim_start(v.icon),
        is_expanded: v.is_expanded,
        contents: seq![decoded_name(v)],
        data: v.data,
        url: if v.data is Some {
            None
        } else {
            v.url
        },
        children: Seq::new(
            v.children.len(),
            |i: int|
                if 0 <= i < v.children.len() {
                    normal(v.children[i])
                } else {
                    arbitrary()
                },
        ),
    }
}

/// The number of nodes that a document node describes: itself and all
/// below it.
pub open spec fn size(v: NodeView) -> nat
    decreases v, v.children.len() + 1,
{
    1 + size_from(v, 0)
}

/// The number of nodes that the children of `v` describe, from the `i`-th
/// on.
pub open spec fn size_from(v: NodeView, i: int) -> nat
    decreases v, v.children.len() - i,
{
    if 0 <= i < v.children.len() {
        size(v.children[i]) + size_from(v, i + 1)
    } else {
        0
    }
}

/// The normal form holds the normal forms of the children, in order.
pub proof fn lemma_normal(v: NodeView)
    ensures
        normal(v).icon == trim_start(v.icon),
        normal(v).is_expanded == v.is_expanded,
        normal(v).contents == seq![decoded_name(v)],
        normal(v).data == v.data,
        normal(v).url == (if v.data is Some {
            None
        } else {
            v.url
        }),
        normal(v).children.len() == v.children.len(),
        forall|k: int|
            0 <= k < v.children.len() ==> #[trigger] normal(v).children[k] == normal(
                v.children[k],
            ),
{
    reveal_with_fuel(normal, 2);
}

impl Graph {
    /// The document node that stands for `n` and all that is below it.
    pub open spec fn encoded(self, n: Node) -> NodeView
        decreases self.height(n), self.children(n).len() + 1,
        when self.wf() && self.contains(n)
    {
        NodeView {
            icon: self.icon(n),
            is_expanded: self.is_expanded(n),
            contents: seq![self.name(n)],
            data: match self.data(n) {
                Some(DataState::File(path)) => Some(path),
                _ => None,
            },
            url: match self.data(n) {
                Some(DataState::Link(link)) => Some(link),
                _ => None,
            },
            children: self.encoded_from(n, 0),
        }
    }

    /// The document nodes of the children of `p` from the `i`-th on.
    pub open spec fn encoded_from(self, p: Node, i: int) -> Seq<NodeView>
        decreases self.height(p), self.children(p).len() - i,
        when self.wf() && self.contains(p) && 0 <= i
    {
        if i >= self.children(p).len() {
            Seq::empty()
        } else {
            proof {
                self.lemma_child(p, i);
            }
            seq![self.encoded(self.children(p)[i])] + self.encoded_from(p, i + 1)
        }
    }

    /// Whether `n` has in `other` the name, icon, flag, data and children
    /// that it has here.
    pub open spec fn same_payload(self, other: Graph, n: Node) -> bool {
        &&& other.contains(n)
        &&& other.name(n) == self.name(n)
        &&& other.icon(n) == self.icon(n)
        &&& other.is_expanded(n) == self.is_expanded(n)
        &&& other.data(n) == self.data(n)
        &&& other.children(n) == self.children(n)
    }

    /// The document nodes of the children, one by one.
    pub proof fn lemma_encoded_from(self, p: Node, i: int)
        requires
            self.wf(),
            self.contains(p),
            0 <= i <= self.children(p).len(),
        ensures
            self.encoded_from(p, i).len() == self.children(p).len() - i,
            forall|k: int|
                0 <= k < self.children(p).len() - i ==> #[trigger] self.encoded_from(p, i)[k]
                    == self.encoded(self.children(p)[i + k]),
        decreases self.children(p).len() - i,
    {
        if i < self.children(p).len() {
            self.lemma_encoded_from(p, i + 1);
            self.lemma_child(p, i);
            assert(self.encoded_from(p, i) == seq![self.encoded(self.children(p)[i])]
                + self.encoded_from(p, i + 1));
            assert forall|k: int| 0 <= k < self.children(p).len() - i implies #[trigger] self.encoded_from(
                p,
                i,
            )[k] == self.encoded(self.children(p)[i + k]) by {
                self.lemma_child(p, i + k);
                let head = seq![self.encoded(self.children(p)[i])];
                let tail = self.encoded_from(p, i + 1);
                assert(self.encoded_from(p, i) == head + tail);
                if k > 0 {
                    assert((head + tail)[k] == tail[k - 1]);
                } else {
                    assert((head + tail)[0] == head[0]);
                }
            }
        }
    }

    /// Two graphs that agree on `n` and on all that is below it write `n`
    /// the same way.
    pub proof fn lemma_encoded_frame(self, other: Graph, n: Node)
        requires
            self.wf(),
            other.wf(),
            self.contains(n),
            forall|x: Node|
                self.contains(x) && self.ancestor_or_self(n, x) ==> #[trigger] self.same_payload(
                    other,
                    x,
                ),
        ensures
            other.encoded(n) == self.encoded(n),
        decreases self.height(n),
    {
        assert(self.ancestor_or_self(n, n));
        assert(self.same_payload(other, n));
        let kids = self.children(n);
        self.lemma_encoded_from(n, 0);
        other.lemma_encoded_from(n, 0);
        assert forall|k: int| 0 <= k < kids.len() implies other.encoded_from(n, 0)[k]
            == self.encoded_from(n, 0)[k] by {
            let c = kids[k];
            self.lemma_child(n, k);
            assert forall|x: Node|
                self.contains(x) && self.ancestor_or_self(c, x) implies #[trigger] self.same_payload(
                other,
                x,
            ) by {
                self.lemma_parent_of_ancestor(c, n, x);
            }
            self.lemma_encoded_frame(other, c);
        }
        assert(other.encoded_from(n, 0) =~= self.encoded_from(n, 0));
    }

    /// A graph that holds every node of this one as it is here writes the
    /// nodes of this one the same way.
    pub proof fn lemma_unchanged_frame(self, other: Graph, n: Node)
        requires
            self.wf(),
            other.wf(),
            self.contains(n),
            forall|x: Node| self.contains(x) ==> #[trigger] other.at(x) == self.at(x),
            self.nodes.len() <= other.nodes.len(),
        ensures
            other.encoded(n) == self.encoded(n),
    {
        assert forall|x: Node|
            self.contains(x) && self.ancestor_or_self(n, x) implies #[trigger] self.same_payload(
            other,
            x,
        ) by {
            assert(other.at(x) == self.at(x));
        }
        self.lemma_encoded_frame(other, n);
    }

    /// What a well-formed graph writes is already in normal form: reading it
    /// back keeps every name, icon, flag, datum and child, in order.
    pub proof fn lemma_encoded_is_normal(self, n: Node)
        requires
            self.wf(),
            self.contains(n),
        ensures
            normal(self.encoded(n)) == self.encoded(n),
        decreases self.height(n),
    {
        let v = self.encoded(n);
        lemma_normal(v);
        assert(self.node_ok(n));
        assert(v.contents.last() == self.name(n));
        self.lemma_encoded_from(n, 0);
        assert forall|k: int| 0 <= k < v.children.len() implies normal(v).children[k]
            == v.children[k] by {
            self.lemma_child(n, k);
            self.lemma_encoded_is_normal(self.children(n)[k]);
        }
        assert(normal(v).children =~= v.children);
        assert(normal(v).contents =~= v.contents);
    }
}

/// A node that is written and read back is written the same way again:
/// whatever graph `h` holds a node `m` read from the document node of `n`,
/// `m` and `n` stand for the same document node.
pub proof fn lemma_round_trip(g: Graph, n: Node, h: Graph, m: Node)
    requires
        g.wf(),
        g.contains(n),
        h.wf(),
        h.contains(m),
        h.encoded(m) == normal(g.encoded(n)),
    ensures
        h.encoded(m) == g.encoded(n),
{
    g.lemma_encoded_is_normal(n);
}

} // verus!
