//! Traversals of a graph, as functions of the model.

use vstd::prelude::*;
use crate::graph::{Graph, Node};
use crate::node::NodeFilter;
use crate::text::trim;

verus! {

impl Graph {
    /// The rows that `n` and what stands below it take in a listing, top to
    /// bottom: `n` itself, then, if `n` is expanded, the rows of each of its
    /// children in order. A collapsed node takes one row whatever it holds.
    pub open spec fn rows(self, n: Node) -> Seq<Node>
        decreases self.height(n), self.children(n).len() + 1,
        when self.wf() && self.contains(n)
    {
        seq![n] + if self.is_expanded(n) {
            self.rows_from(n, 0)
        } else {
            Seq::empty()
        }
    }

    /// The rows of the children of `p` from the `i`-th on.
    pub open spec fn rows_from(self, p: Node, i: int) -> Seq<Node>
        decreases self.height(p), self.children(p).len() - i,
        when self.wf() && self.contains(p) && 0 <= i
    {
        if i >= self.children(p).len() {
            Seq::empty()
        } else {
            proof {
                self.lemma_child(p, i);
            }
            self.rows(self.children(p)[i]) + self.rows_from(p, i + 1)
        }
    }

    /// The first child of `p`, from the `i`-th on, that is named `name`.
    pub open spec fn find_child_from(self, p: Node, name: Seq<char>, i: int) -> Option<Node>
        decreases self.children(p).len() - i,
    {
        if i < 0 || i >= self.children(p).len() {
            None
        } else if self.name(self.children(p)[i]) == name {
            Some(self.children(p)[i])
        } else {
            self.find_child_from(p, name, i + 1)
        }
    }

    /// The first child of `p` that is named `name`.
    pub open spec fn find_child(self, p: Node, name: Seq<char>) -> Option<Node> {
        self.find_child_from(p, name, 0)
    }

    /// The graph in which `p` has one more child, at the end: a new node
    /// with the trimmed `name` and no icon.
    pub open spec fn with_child(self, p: Node, name: Seq<char>) -> Graph {
        self.with_node(trim(name), Seq::empty()).attach(
            p,
            self.children(p).len() as int,
            self.fresh(),
        )
    }

    /// Where the walk from `n` along `path` ends, and the graph it leaves.
    ///
    /// Each step goes to the first child that bears the segment as its name.
    /// Where there is none the walk fails, or, with `create`, goes on through
    /// a child that it makes on the spot.
    pub open spec fn walk(self, n: Node, path: Seq<Seq<char>>, create: bool) -> (Graph, Option<Node>)
        decreases path.len(),
    {
        if path.len() == 0 {
            (self, Some(n))
        } else {
            match self.find_child(n, path[0]) {
                Some(c) => self.walk(c, path.drop_first(), create),
                None => if create {
                    self.with_child(n, path[0]).walk(self.fresh(), path.drop_first(), create)
                } else {
                    (self, None)
                },
            }
        }
    }

    /// The paths of what stands below `p`, from its `i`-th child on, for
    /// a parent whose own path is `base`: for each child in order its path,
    /// `base`, a slash and its name, if `filter` keeps the child, and then
    /// the paths of what stands below the child.
    pub open spec fn paths_below(
        self,
        p: Node,
        base: Seq<char>,
        filter: NodeFilter,
        i: int,
    ) -> Seq<Seq<char>>
        decreases self.height(p), self.children(p).len() - i,
        when self.wf() && self.contains(p) && 0 <= i
    {
        if i >= self.children(p).len() {
            Seq::empty()
        } else {
            proof {
                self.lemma_child(p, i);
            }
            let c = self.children(p)[i];
            let path = base + seq!['/'] + self.name(c);
            (if filter.admits(self.data(c)) {
                seq![path]
            } else {
                Seq::empty()
            }) + self.paths_below(c, path, filter, 0) + self.paths_below(p, base, filter, i + 1)
        }
    }

    /// The paths of `n` and of what stands below it, parents before their
    /// children and children in order, for those that `filter` keeps.
    ///
    /// The path of `n` itself is `prefix`. The path of a child is the path
    /// of its parent, a slash and its name; below `n` the prefix `/` counts
    /// as the empty one.
    pub open spec fn paths(self, n: Node, prefix: Seq<char>, filter: NodeFilter) -> Seq<Seq<char>> {
        (if filter.admits(self.data(n)) {
            seq![prefix]
        } else {
            Seq::empty()
        }) + self.paths_below(
            n,
            if prefix == seq!['/'] {
                Seq::empty()
            } else {
                prefix
            },
            filter,
            0,
        )
    }

    /// The last row of the listing of `n`: `n` itself if it is collapsed or
    /// has no child, else the last row of its last child.
    pub open spec fn last_row(self, n: Node) -> Node
        decreases self.height(n),
        when self.wf() && self.contains(n)
    {
        if self.is_expanded(n) && self.children(n).len() > 0 {
            proof {
                self.lemma_child(n, self.children(n).len() - 1);
            }
            self.last_row(self.children(n).last())
        } else {
            n
        }
    }

    /// The sibling after `n`, or after the nearest node above `n` that has
    /// one.
    pub open spec fn next_up(self, n: Node) -> Option<Node>
        decreases self.depth_bound(n),
        when self.wf() && self.contains(n)
    {
        match self.next(n) {
            Some(s) => Some(s),
            None => match self.parent(n) {
                Some(p) => {
                    proof {
                        self.lemma_parent_higher(n);
                    }
                    self.next_up(p)
                },
                None => None,
            },
        }
    }

    /// The node on the row above `n`: the last row of the sibling before
    /// `n`, or the parent of `n` when `n` is a first child.
    pub open spec fn visual_prev(self, n: Node) -> Option<Node> {
        match self.prev(n) {
            Some(s) => Some(self.last_row(s)),
            None => self.parent(n),
        }
    }

    /// The node on the row below `n`: its first child if it is expanded and
    /// has one, else the next sibling of `n` or of the nearest node above
    /// that has one.
    pub open spec fn visual_next(self, n: Node) -> Option<Node> {
        if self.is_expanded(n) && self.children(n).len() > 0 {
            Some(self.children(n)[0])
        } else {
            self.next_up(n)
        }
    }

    /// The first row of a node is the node.
    pub proof fn lemma_rows_first(self, n: Node)
        requires
            self.wf(),
            self.contains(n),
        ensures
            self.rows(n).len() > 0,
            self.rows(n)[0] == n,
    {
    }
}

/// The text that holds each of `lines` followed by a line feed.
pub open spec fn joined_lines(lines: Seq<Seq<char>>) -> Seq<char>
    decreases lines.len(),
{
    if lines.len() == 0 {
        Seq::empty()
    } else {
        joined_lines(lines.drop_last()) + lines.last() + seq!['\n']
    }
}

} // verus!
