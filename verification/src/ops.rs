//! Where a node goes, relative to another.

use vstd::prelude::*;
use crate::graph::{Graph, Node};
use crate::node::{Arena, NodeError};

verus! {

/// Where a node is put relative to the node that was picked.
#[derive(Clone, Copy, Debug, PartialEq, Eq, Structural)]
pub enum InsertMode {
    /// Among the children of the picked node, first.
    InsideTop,
    /// Among the children of the picked node, last.
    InsideBottom,
    /// As the sibling just before the picked node.
    Before,
    /// As the sibling just after the picked node.
    After,
}

impl Default for InsertMode {
    fn default() -> (r: InsertMode)
        ensures
            r == InsertMode::InsideBottom,
    {
        InsertMode::InsideBottom
    }
}

impl InsertMode {
    /// Whether a node put in this mode becomes a child of the picked node,
    /// not a sibling.
    pub open spec fn is_inside(self) -> bool {
        self == InsertMode::InsideTop || self == InsertMode::InsideBottom
    }

    /// Whether `node` can be put at `anchor` in this mode without a node
    /// coming to stand above itself: `node` must not stand above the node
    /// that becomes its parent.
    pub open spec fn fits(self, g: Graph, anchor: Node, node: Node) -> bool {
        if self.is_inside() {
            !g.ancestor_or_self(node, anchor)
        } else {
            g.parent(anchor) matches Some(p) ==> !g.ancestor_or_self(node, p)
        }
    }

    /// The graph in which the parentless `node` has been put at `anchor` in
    /// this mode, and the answer that comes with it. Beside a node without
    /// a parent nothing can be put.
    pub open spec fn inserted(self, g: Graph, anchor: Node, node: Node) -> (
        Graph,
        Result<(), NodeError>,
    ) {
        match self {
            InsertMode::InsideTop => (g.attach(anchor, 0, node), Ok(())),
            InsertMode::InsideBottom => (
                g.attach(anchor, g.children(anchor).len() as int, node),
                Ok(()),
            ),
            InsertMode::Before => match g.parent(anchor) {
                Some(p) => (g.attach(p, g.position(p, anchor), node), Ok(())),
                None => (g, Err(NodeError::NoParent)),
            },
            InsertMode::After => match g.parent(anchor) {
                Some(p) => (g.attach(p, g.position(p, anchor) + 1, node), Ok(())),
                None => (g, Err(NodeError::NoParent)),
            },
        }
    }

    /// The graph in which `node` has been taken from where it was and put
    /// at `anchor` in this mode, and the answer that comes with it. A node
    /// without a parent is not moved. A node that cannot be put beside
    /// `anchor` has left its parent all the same.
    pub open spec fn moved(self, g: Graph, anchor: Node, node: Node) -> (
        Graph,
        Result<(), NodeError>,
    ) {
        if g.parent(node) is Some {
            self.inserted(g.released(node), anchor, node)
        } else {
            (g, Err(NodeError::NoParent))
        }
    }

    /// Whether `node`, which has no parent, may be put at `anchor` in this
    /// mode.
    pub fn can_insert(&self, arena: &Arena, anchor: Node, node: Node) -> (r: bool)
        requires
            arena.wf(),
        ensures
            r == (arena@.contains(anchor) && arena@.contains(node) && arena@.parent(node) is None
                && self.fits(arena@, anchor, node)),
    {
        if !arena.contains(anchor) || !arena.contains(node) {
            return false;
        }
        if node.parent(arena).is_ok() {
            return false;
        }
        self.check_fit(arena, anchor, node)
    }

    /// Whether `node` may be moved to `anchor` in this mode.
    pub fn can_move(&self, arena: &Arena, anchor: Node, node: Node) -> (r: bool)
        requires
            arena.wf(),
        ensures
            r == (arena@.contains(anchor) && arena@.contains(node) && self.fits(
                arena@,
                anchor,
                node,
            )),
    {
        if !arena.contains(anchor) || !arena.contains(node) {
            return false;
        }
        self.check_fit(arena, anchor, node)
    }

    fn check_fit(&self, arena: &Arena, anchor: Node, node: Node) -> (r: bool)
        requires
            arena.wf(),
            arena@.contains(anchor),
            arena@.contains(node),
        ensures
            r == self.fits(arena@, anchor, node),
    {
        match self {
            InsertMode::InsideTop | InsertMode::InsideBottom => !arena.is_ancestor_or_self(
                node,
                anchor,
            ),
            InsertMode::Before | InsertMode::After => match anchor.parent(arena) {
                Ok(p) => !arena.is_ancestor_or_self(node, p),
                Err(_) => true,
            },
        }
    }

    /// Put the parentless `node` at `anchor` in this mode.
    pub fn insert(&self, arena: &mut Arena, anchor: Node, node: Node) -> (r: Result<(), NodeError>)
        requires
            old(arena).wf(),
            old(arena)@.contains(anchor),
            old(arena)@.contains(node),
            old(arena)@.parent(node) is None,
            self.fits(old(arena)@, anchor, node),
        ensures
            final(arena).wf(),
            (final(arena)@, r) == self.inserted(old(arena)@, anchor, node),
    {
        let r = match self {
            InsertMode::InsideTop => {
                anchor.insert_top(arena, node);
                Ok(())
            },
            InsertMode::InsideBottom => {
                anchor.insert_bottom(arena, node);
                Ok(())
            },
            InsertMode::Before => anchor.insert_before(arena, node),
            InsertMode::After => anchor.insert_after(arena, node),
        };
        proof {
            if r is Ok {
                assert(r->Ok_0 == ());
            }
        }
        r
    }

    /// Take `node` from where it is and put it at `anchor` in this mode.
    pub fn move_node(&self, arena: &mut Arena, anchor: Node, node: Node) -> (r: Result<
        (),
        NodeError,
    >)
        requires
            old(arena).wf(),
            old(arena)@.contains(anchor),
            old(arena)@.contains(node),
            self.fits(old(arena)@, anchor, node),
        ensures
            final(arena).wf(),
            (final(arena)@, r) == self.moved(old(arena)@, anchor, node),
    {
        let r = match self {
            InsertMode::InsideTop => anchor.move_top(arena, node),
            InsertMode::InsideBottom => anchor.move_bottom(arena, node),
            InsertMode::Before => anchor.move_before(arena, node),
            InsertMode::After => anchor.move_after(arena, node),
        };
        proof {
            if r is Ok {
                assert(r->Ok_0 == ());
            }
        }
        r
    }
}

} // verus!
