//! How the moves of a cursor stand to the rows of a listing.

use vstd::prelude::*;
use crate::graph::{Graph, Node};

verus! {

impl Graph {
    /// Each of `rows` but the last has the one after it as the row below.
    pub open spec fn steps_down(self, rows: Seq<Node>) -> bool {
        forall|i: int|
            0 <= i && i + 1 < rows.len() ==> self.visual_next(#[trigger] rows[i]) == Some(
                rows[i + 1],
            )
    }

    /// Each of `rows` but the first has the one before it as the row above.
    pub open spec fn steps_up(self, rows: Seq<Node>) -> bool {
        forall|i: int|
            0 <= i && i + 1 < rows.len() ==> #[trigger] self.visual_prev(rows[i + 1]) == Some(
                rows[i],
            )
    }

    /// Two runs of rows make one when the first ends where the second
    /// begins.
    proof fn lemma_join(self, a: Seq<Node>, b: Seq<Node>)
        requires
            a.len() > 0,
            b.len() > 0,
            self.steps_down(a),
            self.steps_down(b),
            self.steps_up(a),
            self.steps_up(b),
            self.visual_next(a.last()) == Some(b[0]),
            self.visual_prev(b[0]) == Some(a.last()),
        ensures
            self.steps_down(a + b),
            self.steps_up(a + b),
    {
        let s = a + b;
        assert forall|i: int| 0 <= i && i + 1 < s.len() implies self.visual_next(#[trigger] s[i])
            == Some(s[i + 1]) by {
            if i + 1 < a.len() {
                assert(s[i] == a[i] && s[i + 1] == a[i + 1]);
            } else if i + 1 == a.len() {
                assert(s[i] == a.last() && s[i + 1] == b[0]);
            } else {
                assert(s[i] == b[i - a.len()] && s[i + 1] == b[i - a.len() + 1]);
            }
        }
        assert forall|i: int| 0 <= i && i + 1 < s.len() implies #[trigger] self.visual_prev(
            s[i + 1],
        ) == Some(s[i]) by {
            if i + 1 < a.len() {
                assert(s[i] == a[i] && s[i + 1] == a[i + 1]);
                assert(self.visual_prev(a[i + 1]) == Some(a[i]));
            } else if i + 1 == a.len() {
                assert(s[i] == a.last() && s[i + 1] == b[0]);
            } else {
                let k = i - a.len();
                assert(s[i] == b[k] && s[i + 1] == b[k + 1]);
                assert(self.visual_prev(b[k + 1]) == Some(b[k]));
            }
        }
    }

    /// Every row of a node is a node of the graph.
    pub proof fn lemma_rows_hold_nodes(self, n: Node)
        requires
            self.wf(),
            self.contains(n),
        ensures
            forall|i: int| 0 <= i < self.rows(n).len() ==> self.contains(#[trigger] self.rows(n)[i]),
        decreases self.height(n), self.children(n).len() + 1,
    {
        let below = if self.is_expanded(n) {
            self.rows_from(n, 0)
        } else {
            Seq::empty()
        };
        if self.is_expanded(n) {
            self.lemma_rows_from_hold_nodes(n, 0);
        }
        assert(self.rows(n) == seq![n] + below);
        assert forall|i: int| 0 <= i < self.rows(n).len() implies self.contains(
            #[trigger] self.rows(n)[i],
        ) by {
            if i > 0 {
                assert(self.rows(n)[i] == below[i - 1]);
            }
        }
    }

    /// Every row of the children of a node is a node of the graph.
    pub proof fn lemma_rows_from_hold_nodes(self, p: Node, j: int)
        requires
            self.wf(),
            self.contains(p),
            0 <= j,
        ensures
            forall|i: int|
                0 <= i < self.rows_from(p, j).len() ==> self.contains(
                    #[trigger] self.rows_from(p, j)[i],
                ),
        decreases self.height(p), self.children(p).len() - j,
    {
        if j < self.children(p).len() {
            self.lemma_child(p, j);
            self.lemma_rows_hold_nodes(self.children(p)[j]);
            self.lemma_rows_from_hold_nodes(p, j + 1);
            let head = self.rows(self.children(p)[j]);
            let tail = self.rows_from(p, j + 1);
            assert(self.rows_from(p, j) == head + tail);
            assert forall|i: int| 0 <= i < self.rows_from(p, j).len() implies self.contains(
                #[trigger] self.rows_from(p, j)[i],
            ) by {
                if i < head.len() {
                    assert(self.rows_from(p, j)[i] == head[i]);
                } else {
                    assert(self.rows_from(p, j)[i] == tail[i - head.len()]);
                }
            }
        }
    }

    /// The rows of a node begin with the node, end with its last row, and
    /// go from each to the next by one step of the cursor, down and up.
    pub proof fn lemma_rows_are_steps(self, n: Node)
        requires
            self.wf(),
            self.contains(n),
        ensures
            self.rows(n).len() > 0,
            self.rows(n)[0] == n,
            self.rows(n).last() == self.last_row(n),
            self.contains(self.rows(n).last()),
            self.visual_next(self.rows(n).last()) == self.next_up(n),
            self.steps_down(self.rows(n)),
            self.steps_up(self.rows(n)),
        decreases self.height(n), self.children(n).len() + 1,
    {
        let own = seq![n];
        if self.is_expanded(n) && self.children(n).len() > 0 {
            let below = self.rows_from(n, 0);
            self.lemma_rows_from_are_steps(n, 0);
            self.lemma_child(n, 0);
            assert(self.rows(n) == own + below);
            assert(self.visual_prev(below[0]) == Some(n));
            self.lemma_join(own, below);
            assert((own + below).last() == below.last());
            let last = self.children(n).last();
            self.lemma_child(n, self.children(n).len() - 1);
        } else {
            if self.is_expanded(n) {
                assert(self.rows_from(n, 0) =~= Seq::<Node>::empty());
            }
            assert(self.rows(n) =~= own);
        }
    }

    /// The rows of the children of a node, from one of them on, begin with
    /// that child, end with the last row of the last child, and go from each
    /// to the next by one step of the cursor, down and up.
    pub proof fn lemma_rows_from_are_steps(self, p: Node, j: int)
        requires
            self.wf(),
            self.contains(p),
            0 <= j < self.children(p).len(),
        ensures
            self.rows_from(p, j).len() > 0,
            self.rows_from(p, j)[0] == self.children(p)[j],
            self.rows_from(p, j).last() == self.last_row(self.children(p).last()),
            self.contains(self.rows_from(p, j).last()),
            self.visual_next(self.rows_from(p, j).last()) == self.next_up(p),
            self.steps_down(self.rows_from(p, j)),
            self.steps_up(self.rows_from(p, j)),
        decreases self.height(p), self.children(p).len() - j,
    {
        let kids = self.children(p);
        let c = kids[j];
        self.lemma_child(p, j);
        self.lemma_rows_are_steps(c);
        let head = self.rows(c);
        let tail = self.rows_from(p, j + 1);
        assert(self.rows_from(p, j) == head + tail);
        if j + 1 < kids.len() {
            self.lemma_rows_from_are_steps(p, j + 1);
            self.lemma_child(p, j + 1);
            assert(self.next_up(c) == Some(kids[j + 1]));
            assert(self.visual_prev(kids[j + 1]) == Some(self.last_row(c)));
            self.lemma_join(head, tail);
            assert((head + tail).last() == tail.last());
            assert((head + tail)[0] == head[0]);
        } else {
            assert(tail =~= Seq::<Node>::empty());
            assert(head + tail =~= head);
            assert(c == kids.last());
            assert(self.next_up(c) == self.next_up(p));
        }
    }
}

/// In the listing of a node, the cursor goes from each row to the row below
/// by `visual_next`, and from each row to the row above by `visual_prev`.
pub proof fn lemma_cursor_follows_rows(g: Graph, root: Node, i: int)
    requires
        g.wf(),
        g.contains(root),
        0 <= i,
        i + 1 < g.rows(root).len(),
    ensures
        g.visual_next(g.rows(root)[i]) == Some(g.rows(root)[i + 1]),
        g.visual_prev(g.rows(root)[i + 1]) == Some(g.rows(root)[i]),
{
    g.lemma_rows_are_steps(root);
    let rows = g.rows(root);
    assert(g.visual_next(rows[i]) == Some(rows[i + 1]));
    assert(g.visual_prev(rows[i + 1]) == Some(rows[i]));
}

/// Every row of the listing of a node is a node of the graph.
pub proof fn lemma_rows_are_nodes(g: Graph, root: Node, i: int)
    requires
        g.wf(),
        g.contains(root),
        0 <= i < g.rows(root).len(),
    ensures
        g.contains(g.rows(root)[i]),
{
    g.lemma_rows_hold_nodes(root);
}

/// From the last row of the listing of a node without parent the cursor
/// cannot go down, and from its first row it cannot go up.
pub proof fn lemma_cursor_stops_at_the_ends(g: Graph, root: Node)
    requires
        g.wf(),
        g.contains(root),
        g.parent(root) is None,
    ensures
        g.visual_next(g.rows(root).last()) is None,
        g.visual_prev(g.rows(root)[0]) is None,
{
    g.lemma_rows_are_steps(root);
    assert(g.node_ok(root));
}

} // verus!
