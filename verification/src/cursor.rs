//! A cursor over the nodes of a store, for a listing that is walked row by
//! row.

use vstd::prelude::*;
use crate::graph::Node;
use crate::node::Arena;

verus! {

/// A place among the nodes of a store.
///
/// A cursor holds a handle and nothing else. Each move answers whether it
/// took place; a move that cannot take place leaves the cursor where it is.
#[derive(Clone, Copy, Debug)]
pub struct Cursor {
    node: Node,
}

impl View for Cursor {
    type V = Node;

    closed spec fn view(&self) -> Node {
        self.node
    }
}

impl Cursor {
    /// A cursor on `node`.
    pub fn new(node: Node) -> (r: Cursor)
        ensures
            r@ == node,
    {
        Cursor { node }
    }

    /// The node under the cursor.
    pub fn node(&self) -> (r: &Node)
        ensures
            *r == self@,
    {
        &self.node
    }

    /// Whether the node under the cursor is expanded.
    pub fn is_expanded(&self, arena: &Arena) -> (r: bool)
        requires
            arena@.contains(self@),
        ensures
            r == arena@.is_expanded(self@),
    {
        self.node.is_expanded(arena)
    }

    /// Whether the cursor is on `node`.
    pub fn points_to(&self, node: &Node) -> (r: bool)
        ensures
            r == (self@ == *node),
    {
        self.node == *node
    }

    /// Expand the node under the cursor if it is collapsed, collapse it if
    /// it is expanded.
    pub fn toggle_expand(&self, arena: &mut Arena)
        requires
            old(arena).wf(),
            old(arena)@.contains(self@),
        ensures
            final(arena).wf(),
            final(arena)@ == old(arena)@.with_expanded(self@, !old(arena)@.is_expanded(self@)),
    {
        self.node.toggle_expand(arena);
    }

    /// Go to the parent.
    pub fn parent(&mut self, arena: &Arena) -> (r: bool)
        requires
            arena.wf(),
            arena@.contains(old(self)@),
        ensures
            arena@.contains(final(self)@),
            match arena@.parent(old(self)@) {
                Some(p) => r && final(self)@ == p,
                None => !r && final(self)@ == old(self)@,
            },
    {
        match self.node.parent(arena) {
            Ok(p) => {
                self.node = p;
                true
            },
            Err(_) => false,
        }
    }

    /// Go to the sibling before.
    pub fn prev_sibling(&mut self, arena: &Arena) -> (r: bool)
        requires
            arena.wf(),
            arena@.contains(old(self)@),
        ensures
            arena@.contains(final(self)@),
            match arena@.prev(old(self)@) {
                Some(s) => r && final(self)@ == s,
                None => !r && final(self)@ == old(self)@,
            },
    {
        proof {
            arena@.lemma_siblings(self@);
        }
        match self.node.prev(arena) {
            Some(s) => {
                self.node = s;
                true
            },
            None => false,
        }
    }

    /// Go to the sibling after.
    pub fn next_sibling(&mut self, arena: &Arena) -> (r: bool)
        requires
            arena.wf(),
            arena@.contains(old(self)@),
        ensures
            arena@.contains(final(self)@),
            match arena@.next(old(self)@) {
                Some(s) => r && final(self)@ == s,
                None => !r && final(self)@ == old(self)@,
            },
    {
        proof {
            arena@.lemma_siblings(self@);
        }
        match self.node.next(arena) {
            Some(s) => {
                self.node = s;
                true
            },
            None => false,
        }
    }

    /// Go to the first child.
    pub fn first_child(&mut self, arena: &Arena) -> (r: bool)
        requires
            arena.wf(),
            arena@.contains(old(self)@),
        ensures
            arena@.contains(final(self)@),
            if arena@.children(old(self)@).len() > 0 {
                r && final(self)@ == arena@.children(old(self)@)[0]
            } else {
                !r && final(self)@ == old(self)@
            },
    {
        let kids = self.node.children(arena);
        match kids.first() {
            Some(c) => {
                proof {
                    arena@.lemma_child(self@, 0);
                }
                self.node = c;
                true
            },
            None => false,
        }
    }

    /// Go to the last of the siblings of the node under the cursor, which
    /// is the first child of `parent`.
    fn last_sibling(&mut self, arena: &Arena, Ghost(parent): Ghost<Node>)
        requires
            arena.wf(),
            arena@.contains(parent),
            arena@.children(parent).len() > 0,
            old(self)@ == arena@.children(parent)[0],
        ensures
            final(self)@ == arena@.children(parent).last(),
            arena@.contains(final(self)@),
    {
        let ghost mut k: int = 0;
        proof {
            arena@.lemma_child(parent, 0);
        }
        loop
            invariant
                arena.wf(),
                arena@.contains(parent),
                0 <= k < arena@.children(parent).len(),
                self@ == arena@.children(parent)[k],
                arena@.contains(self@),
            ensures
                self@ == arena@.children(parent).last(),
                arena@.contains(self@),
            decreases arena@.children(parent).len() - k,
        {
            proof {
                arena@.lemma_child(parent, k);
                if k + 1 < arena@.children(parent).len() {
                    arena@.lemma_child(parent, k + 1);
                }
            }
            if !self.next_sibling(arena) {
                break;
            }
            proof {
                k = k + 1;
            }
        }
    }

    /// Go to the row above, as a listing shows it: the last row of the
    /// sibling before, or the parent.
    pub fn visual_prev(&mut self, arena: &Arena) -> (r: bool)
        requires
            arena.wf(),
            arena@.contains(old(self)@),
        ensures
            arena@.contains(final(self)@),
            match arena@.visual_prev(old(self)@) {
                Some(n) => r && final(self)@ == n,
                None => !r && final(self)@ == old(self)@,
            },
    {
        if self.prev_sibling(arena) {
            let ghost top = self@;
            // go down to the last row of the sibling
            loop
                invariant
                    arena.wf(),
                    arena@.contains(self@),
                    arena@.contains(top),
                    arena@.last_row(top) == arena@.last_row(self@),
                ensures
                    arena@.contains(self@),
                    self@ == arena@.last_row(top),
                decreases arena@.height(self@),
            {
                if !self.is_expanded(arena) {
                    break;
                }
                let ghost here = self@;
                if !self.first_child(arena) {
                    break;
                }
                proof {
                    arena@.lemma_child(here, arena@.children(here).len() - 1);
                }
                self.last_sibling(arena, Ghost(here));
            }
            true
        } else {
            self.parent(arena)
        }
    }

    /// Go to the row below, as a listing shows it: the first child of an
    /// expanded node, else the next sibling, of the node or of the nearest
    /// node above that has one.
    pub fn visual_next(&mut self, arena: &Arena) -> (r: bool)
        requires
            arena.wf(),
            arena@.contains(old(self)@),
        ensures
            arena@.contains(final(self)@),
            match arena@.visual_next(old(self)@) {
                Some(n) => r && final(self)@ == n,
                None => !r && final(self)@ == old(self)@,
            },
    {
        if self.is_expanded(arena) && self.first_child(arena) {
            return true;
        }
        if self.next_sibling(arena) {
            return true;
        }
        let mut cursor: Cursor = *self;
        loop
            invariant
                arena.wf(),
                arena@.contains(self@),
                arena@.contains(cursor@),
                self@ == old(self)@,
                arena@.next(cursor@) is None,
                arena@.visual_next(old(self)@) == arena@.next_up(cursor@),
            decreases arena@.depth_bound(cursor@),
        {
            proof {
                if arena@.parent(cursor@) is Some {
                    arena@.lemma_parent_higher(cursor@);
                }
            }
            let ghost below = cursor@;
            if !cursor.parent(arena) {
                return false;
            }
            let ghost above = cursor@;
            proof {
                assert(arena@.next_up(below) == arena@.next_up(above));
                assert(arena@.next_up(above) == match arena@.next(above) {
                    Some(s) => Some(s),
                    None => match arena@.parent(above) {
                        Some(p) => arena@.next_up(p),
                        None => None,
                    },
                });
            }
            if cursor.next_sibling(arena) {
                *self = cursor;
                return true;
            }
        }
    }
}

} // verus!
