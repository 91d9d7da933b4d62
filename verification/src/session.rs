//! Changes to a tree that name their node by its row in the listing.

use vstd::prelude::*;
use crate::graph::{Graph, Node};
use crate::node::{NodeData, NodeError, data_view};
use crate::ops::InsertMode;
use crate::text::trim;
use crate::tree::Tree;

verus! {

/// What became of the request to delete a row.
#[derive(Clone, Copy, Debug, PartialEq, Eq, Structural)]
pub enum Deletion {
    /// There is no such row.
    NoSuchRow,
    /// The row holds the root, which is never deleted.
    Root,
    /// The node of the row has left its parent.
    Done,
}

impl Tree {
    /// The node on row `line` of the listing of the tree, if there is
    /// such a row.
    pub open spec fn row(&self, line: int) -> Option<Node> {
        if 0 <= line < self.nodes@.rows(self.node).len() {
            Some(self.nodes@.rows(self.node)[line])
        } else {
            None
        }
    }

    /// Whether the tree is as it was but for its nodes, which are now `g`.
    pub open spec fn became(&self, before: Tree, g: Graph) -> bool {
        &&& self.version == before.version
        &&& self.ty == before.ty
        &&& self.node == before.node
        &&& self.nodes@ == g
    }

    /// Expand the node on row `line` if it is collapsed, collapse it if it
    /// is expanded. The answer is whether there is such a row.
    pub fn toggle_row(&mut self, line: usize) -> (r: bool)
        requires
            old(self).wf(),
        ensures
            final(self).wf(),
            match old(self).row(line as int) {
                Some(n) => r && final(self).became(
                    *old(self),
                    old(self).nodes@.with_expanded(n, !old(self).nodes@.is_expanded(n)),
                ),
                None => !r && final(self).became(*old(self), old(self).nodes@),
            },
    {
        match self.get_node_by_line(line) {
            Some(node) => {
                node.toggle_expand(&mut self.nodes);
                true
            },
            None => false,
        }
    }

    /// Give the node on row `line` the trimmed `name`. The answer is
    /// whether there is such a row, or the refusal of an empty name.
    pub fn rename_row(&mut self, line: usize, name: &str) -> (r: Result<bool, NodeError>)
        requires
            old(self).wf(),
        ensures
            final(self).wf(),
            match old(self).row(line as int) {
                Some(n) => if trim(name@).len() > 0 {
                    r == Ok::<bool, NodeError>(true) && final(self).became(
                        *old(self),
                        old(self).nodes@.with_name(n, trim(name@)),
                    )
                } else {
                    r == Err::<bool, NodeError>(NodeError::EmptyName) && final(self).became(
                        *old(self),
                        old(self).nodes@,
                    )
                },
                None => r == Ok::<bool, NodeError>(false) && final(self).became(
                    *old(self),
                    old(self).nodes@,
                ),
            },
    {
        match self.get_node_by_line(line) {
            Some(node) => match node.set_name(&mut self.nodes, name) {
                Ok(()) => Ok(true),
                Err(e) => Err(e),
            },
            None => Ok(false),
        }
    }

    /// Take the node on row `line` out of the children of its parent.
    pub fn delete_row(&mut self, line: usize) -> (r: Deletion)
        requires
            old(self).wf(),
        ensures
            final(self).wf(),
            match old(self).row(line as int) {
                Some(n) => if old(self).nodes@.parent(n) is Some {
                    r == Deletion::Done && final(self).became(
                        *old(self),
                        old(self).nodes@.released(n),
                    )
                } else {
                    r == Deletion::Root && final(self).became(*old(self), old(self).nodes@)
                },
                None => r == Deletion::NoSuchRow && final(self).became(
                    *old(self),
                    old(self).nodes@,
                ),
            },
    {
        let node = match self.get_node_by_line(line) {
            Some(node) => node,
            None => {
                return Deletion::NoSuchRow;
            },
        };
        match node.parent(&self.nodes) {
            Ok(parent) => {
                proof {
                    self.nodes@.lemma_parent_holds(node);
                }
                let deleted = parent.delete(&mut self.nodes, node);
                assert(deleted is Ok);
                Deletion::Done
            },
            Err(_) => Deletion::Root,
        }
    }

    /// Make a node named `name`, without an icon, and put it at the node on
    /// row `line` in the mode `mode`. The answer is whether there is such a
    /// row, or the refusal to put a node beside the root; the node is made
    /// before that refusal, and stays without a parent.
    pub fn insert_at_row(&mut self, line: usize, mode: InsertMode, name: &str) -> (r: Result<
        bool,
        NodeError,
    >)
        requires
            old(self).wf(),
        ensures
            final(self).wf(),
            match old(self).row(line as int) {
                Some(anchor) => {
                    let made = old(self).nodes@.with_node(trim(name@), Seq::empty());
                    let put = mode.inserted(made, anchor, old(self).nodes@.fresh());
                    &&& final(self).became(*old(self), put.0)
                    &&& match put.1 {
                        Ok(_) => r == Ok::<bool, NodeError>(true),
                        Err(e) => r == Err::<bool, NodeError>(e),
                    }
                },
                None => r == Ok::<bool, NodeError>(false) && final(self).became(
                    *old(self),
                    old(self).nodes@,
                ),
            },
    {
        let anchor = match self.get_node_by_line(line) {
            Some(anchor) => anchor,
            None => {
                return Ok(false);
            },
        };
        let ghost before = self.nodes@;
        let node = Node::new(&mut self.nodes, name, "");
        proof {
            reveal_strlit("");
            assert(""@ =~= Seq::<char>::empty());
            assert(crate::text::trim_start(""@) =~= Seq::<char>::empty());
            let made = self.nodes@;
            made.lemma_fresh_is_apart(before, node, anchor);
            assert(made.at(anchor) == before.at(anchor));
            if made.parent(anchor) is Some {
                let p = made.parent(anchor)->0;
                before.lemma_parent_holds(anchor);
                made.lemma_fresh_is_apart(before, node, p);
            }
        }
        match mode.insert(&mut self.nodes, anchor, node) {
            Ok(()) => Ok(true),
            Err(e) => Err(e),
        }
    }

    /// The data of the node on row `line`, if there is such a row.
    pub fn data_of_row(&self, line: usize) -> (r: Option<Option<NodeData>>)
        requires
            self.wf(),
        ensures
            match self.row(line as int) {
                Some(n) => r is Some && data_view(r->0) == self.nodes@.data(n),
                None => r is None,
            },
    {
        match self.get_node_by_line(line) {
            Some(node) => Some(node.data(&self.nodes)),
            None => None,
        }
    }
}

} // verus!
