//! What holds of every well-formed graph, and of the operations on it.

use vstd::prelude::*;
use crate::graph::{DataState, Graph, Node};
use crate::node::{set_data_outcome, NodeError};

verus! {

/// A node that has a parent stands among the children of that parent, and
/// stands there exactly once.
pub proof fn lemma_child_of_its_parent_once(g: Graph, n: Node)
    requires
        g.wf(),
        g.contains(n),
        g.parent(n) is Some,
    ensures
        g.contains(g.parent(n)->0),
        g.children(g.parent(n)->0).contains(n),
        g.children(g.parent(n)->0).to_multiset().count(n) == 1,
        forall|i: int, j: int|
            0 <= i < g.children(g.parent(n)->0).len() && 0 <= j < g.children(g.parent(n)->0).len()
                && g.children(g.parent(n)->0)[i] == n && g.children(g.parent(n)->0)[j] == n ==> i
                == j,
{
    let p = g.parent(n)->0;
    g.lemma_parent_holds(n);
    assert(g.node_ok(p));
    let kids = g.children(p);
    kids.lemma_multiset_has_no_duplicates();
    vstd::seq_lib::to_multiset_contains(kids, n);
}

/// Whoever stands among the children of a node has that node as its parent.
pub proof fn lemma_parent_of_a_child(g: Graph, p: Node, i: int)
    requires
        g.wf(),
        g.contains(p),
        0 <= i < g.children(p).len(),
    ensures
        g.contains(g.children(p)[i]),
        g.parent(g.children(p)[i]) == Some(p),
{
    g.lemma_child(p, i);
}

/// The sibling links follow the order of the children: of two neighbours
/// among the children of a node, each is the other's sibling on its side.
pub proof fn lemma_sibling_chain(g: Graph, p: Node, i: int)
    requires
        g.wf(),
        g.contains(p),
        0 <= i,
        i + 1 < g.children(p).len(),
    ensures
        g.next(g.children(p)[i]) == Some(g.children(p)[i + 1]),
        g.prev(g.children(p)[i + 1]) == Some(g.children(p)[i]),
{
    g.lemma_child(p, i);
    g.lemma_child(p, i + 1);
}

/// The first child of a node has no sibling before it, the last child has
/// none after it.
pub proof fn lemma_sibling_chain_ends(g: Graph, p: Node)
    requires
        g.wf(),
        g.contains(p),
        g.children(p).len() > 0,
    ensures
        g.prev(g.children(p).first()) is None,
        g.next(g.children(p).last()) is None,
{
    g.lemma_child(p, 0);
    g.lemma_child(p, g.children(p).len() - 1);
}

/// A node without a parent has no siblings.
pub proof fn lemma_root_has_no_siblings(g: Graph, n: Node)
    requires
        g.wf(),
        g.contains(n),
        g.parent(n) is None,
    ensures
        g.prev(n) is None,
        g.next(n) is None,
{
    assert(g.node_ok(n));
}

/// A child that has left its parent is no longer among its children, so
/// that it cannot leave a second time.
pub proof fn lemma_detached_is_gone(g: Graph, p: Node, c: Node)
    requires
        g.wf(),
        g.contains(p),
        g.children(p).contains(c),
    ensures
        g.detach(p, g.position(p, c)).wf(),
        !g.detach(p, g.position(p, c)).children(p).contains(c),
        g.detach(p, g.position(p, c)).parent(c) is None,
{
    g.lemma_position(p, c);
    let i = g.position(p, c);
    let h = g.detach(p, i);
    g.lemma_detach_wf(p, i);
    g.lemma_detach_frame(p, i);
    assert(g.node_ok(p));
    let kids = g.children(p);
    assert forall|j: int| 0 <= j < kids.remove(i).len() implies kids.remove(i)[j] != c by {
        if j < i {
            assert(kids.remove(i)[j] == kids[j]);
        } else {
            assert(kids.remove(i)[j] == kids[j + 1]);
        }
    }
}

/// A node takes a file when it has no data; once it has the file it takes
/// no link, and keeps the file.
pub proof fn lemma_file_then_link(path: Seq<char>, link: Seq<char>)
    requires
        path.len() > 0,
    ensures
        set_data_outcome(None, DataState::File(path)) is Ok,
        set_data_outcome(Some(DataState::File(path)), DataState::Link(link)) == Err::<
            (),
            NodeError,
        >(NodeError::MismatchDataType),
{
}

} // verus!
