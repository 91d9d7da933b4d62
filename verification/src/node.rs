//! The node store and the operations on its nodes.
//!
//! Nodes live in an [`Arena`] and are named by [`Node`] handles. A handle is
//! only a place in the arena that issued it, so every operation on a node
//! takes the arena beside the handle. What an operation does is stated over
//! the arena's view, a [`Graph`].

use vstd::prelude::*;
use crate::codec::{decoded_data, decoded_name, lemma_normal, normal, size, size_from};
use crate::encoding;
use crate::graph::{DataState, Graph, NodeState};
use crate::walk::joined_lines;
use crate::text::{trim, trim_start, trimmed, trimmed_start, push_char};

pub use crate::cursor::Cursor;
pub use crate::graph::Node;
pub use crate::path::path_iter;
pub use crate::tree::Tree;

verus! {

/// The data that a node can carry.
#[derive(Debug, PartialEq, Eq)]
pub enum NodeData {
    File(String),
    Link(String),
}

impl View for NodeData {
    type V = DataState;

    open spec fn view(&self) -> DataState {
        match self {
            NodeData::File(path) => DataState::File(path@),
            NodeData::Link(link) => DataState::Link(link@),
        }
    }
}

impl Clone for NodeData {
    fn clone(&self) -> (r: Self)
        ensures
            r == *self,
    {
        match self {
            NodeData::File(path) => NodeData::File(path.clone()),
            NodeData::Link(link) => NodeData::Link(link.clone()),
        }
    }
}

impl NodeData {
    /// File data with the given path.
    pub fn file(path: &str) -> (r: NodeData)
        ensures
            r@ == DataState::File(path@),
    {
        NodeData::File(path.to_owned())
    }

    /// Link data with the given address.
    pub fn link(link: &str) -> (r: NodeData)
        ensures
            r@ == DataState::Link(link@),
    {
        NodeData::Link(link.to_owned())
    }
}

/// The view of optional data.
pub open spec fn data_view(data: Option<NodeData>) -> Option<DataState> {
    match data {
        Some(d) => Some(d@),
        None => None,
    }
}

/// Why an operation on a node was refused.
#[derive(Debug, PartialEq, Eq)]
pub enum NodeError {
    /// The node has no parent.
    NoParent,
    /// The node is not among the children of its supposed parent.
    NotContainedInParent,
    /// A name must hold more than white space.
    EmptyName,
    /// File data is never overwritten.
    FileDataAlreadyExists,
    /// The node already carries data of the other kind.
    MismatchDataType,
    /// Empty data cannot be set on a node that has none.
    NoData,
    /// The data file could not be created; the text says why.
    CannotCreateDataFile(String),
    /// The paths could not be written; the text says why.
    CannotWritePaths(String),
}

impl NodeError {
    /// The message that describes this error.
    pub fn message(&self) -> (r: String)
        ensures
            r@ == match *self {
                NodeError::NoParent => "cannot insert; no parent"@,
                NodeError::NotContainedInParent =>
                    "the node is not contained in its supposed parent"@,
                NodeError::EmptyName => "cannot set name; name cannot be empty"@,
                NodeError::FileDataAlreadyExists => "cannot set data; file data already exists"@,
                NodeError::MismatchDataType =>
                    "cannot set data; already exists with a different type"@,
                NodeError::NoData => "no data"@,
                NodeError::CannotCreateDataFile(why) => "cannot create associated data file: "@
                    + why@,
                NodeError::CannotWritePaths(_) => "cannot write paths"@,
            },
    {
        match self {
            NodeError::NoParent => "cannot insert; no parent".to_owned(),
            NodeError::NotContainedInParent =>
                "the node is not contained in its supposed parent".to_owned(),
            NodeError::EmptyName => "cannot set name; name cannot be empty".to_owned(),
            NodeError::FileDataAlreadyExists =>
                "cannot set data; file data already exists".to_owned(),
            NodeError::MismatchDataType =>
                "cannot set data; already exists with a different type".to_owned(),
            NodeError::NoData => "no data".to_owned(),
            NodeError::CannotCreateDataFile(why) => {
                "cannot create associated data file: ".to_owned().concat(why.as_str())
            },
            NodeError::CannotWritePaths(_) => "cannot write paths".to_owned(),
        }
    }
}

/// A back reference to a node, as a child holds one to its parent.
///
/// It owns nothing; turn it into a [`Node`] with [`WeakNode::upgrade`].
#[derive(Clone, Copy, Debug)]
pub struct WeakNode {
    id: usize,
}

impl WeakNode {
    /// The node that this reference points at.
    pub closed spec fn target(self) -> Node {
        Node { id: self.id }
    }

    /// The node behind this reference, if the arena holds it.
    pub fn upgrade(&self, arena: &Arena) -> (r: Option<Node>)
        ensures
            r == if arena@.contains(self.target()) {
                Some(self.target())
            } else {
                None
            },
    {
        if self.id < arena.nodes.len() {
            Some(Node { id: self.id })
        } else {
            None
        }
    }
}

/// The record that the arena keeps for one node.
#[derive(Debug)]
pub struct NodeInner {
    name: String,
    icon: String,
    is_expanded: bool,
    parent: Option<WeakNode>,
    prev: Option<Node>,
    next: Option<Node>,
    data: Option<NodeData>,
    children: Vec<Node>,
}

impl View for NodeInner {
    type V = NodeState;

    closed spec fn view(&self) -> NodeState {
        NodeState {
            name: self.name@,
            icon: self.icon@,
            is_expanded: self.is_expanded,
            data: data_view(self.data),
            parent: match self.parent {
                Some(w) => Some(w.target()),
                None => None,
            },
            prev: self.prev,
            next: self.next,
            children: self.children@,
        }
    }
}

/// The store that owns every node.
///
/// Nodes are never taken out of it: a node that has left its parent stays,
/// without a parent, and its handle stays good.
#[derive(Debug)]
pub struct Arena {
    nodes: Vec<NodeInner>,
}

impl View for Arena {
    type V = Graph;

    closed spec fn view(&self) -> Graph {
        Graph { nodes: Seq::new(self.nodes@.len(), |i: int| self.nodes@[i]@) }
    }
}

impl Arena {
    /// The invariant that every operation expects and keeps.
    pub open spec fn wf(&self) -> bool {
        self@.wf()
    }

    /// An arena without nodes.
    pub fn new() -> (arena: Arena)
        ensures
            arena@ == Graph::empty(),
            arena.wf(),
    {
        let arena = Arena { nodes: Vec::new() };
        proof {
            assert(arena@.nodes =~= Graph::empty().nodes);
            Graph::lemma_empty_wf();
        }
        arena
    }

    /// The number of nodes ever created in this arena.
    pub fn len(&self) -> (n: usize)
        ensures
            n == self@.len(),
    {
        self.nodes.len()
    }

    /// Whether `node` denotes a node of this arena.
    pub fn contains(&self, node: Node) -> (r: bool)
        ensures
            r == self@.contains(node),
    {
        node.id < self.nodes.len()
    }

    /// Whether `a` is `x` or stands above it.
    pub fn is_ancestor_or_self(&self, a: Node, x: Node) -> (r: bool)
        requires
            self.wf(),
            self@.contains(x),
        ensures
            r == self@.ancestor_or_self(a, x),
    {
        let mut cur: Node = x;
        loop
            invariant
                self.wf(),
                self@.contains(cur),
                self@.ancestor_or_self(a, x) == self@.ancestor_or_self(a, cur),
            decreases self@.depth_bound(cur),
        {
            if cur == a {
                return true;
            }
            match self.nodes[cur.id].parent {
                Some(w) => {
                    proof {
                        self@.lemma_parent_higher(cur);
                    }
                    cur = Node { id: w.id };
                },
                None => {
                    return false;
                },
            }
        }
    }
}

impl Node {
    /// A new node in `arena`: `name` is trimmed, `icon` is trimmed at its
    /// start; the node is collapsed and has no data, parent or children.
    pub fn new(arena: &mut Arena, name: &str, icon: &str) -> (node: Node)
        requires
            old(arena).wf(),
        ensures
            node == old(arena)@.fresh(),
            final(arena)@ == old(arena)@.with_node(trim(name@), trim_start(icon@)),
            final(arena).wf(),
    {
        let node = Node::new_raw(arena, name, icon, false);
        proof {
            let g = old(arena)@.with_node(trim(name@), trim_start(icon@));
            assert(g.with_expanded(node, false).nodes =~= g.nodes);
        }
        node
    }

    /// A back reference to this node.
    pub fn downgrade(&self) -> (r: WeakNode)
        ensures
            r.target() == *self,
    {
        WeakNode { id: self.id }
    }

    /// A new node with the given expansion flag.
    fn new_raw(arena: &mut Arena, name: &str, icon: &str, is_expanded: bool) -> (node: Node)
        requires
            old(arena).wf(),
        ensures
            node == old(arena)@.fresh(),
            final(arena)@ == old(arena)@.with_node(trim(name@), trim_start(icon@)).with_expanded(
                node,
                is_expanded,
            ),
            final(arena).wf(),
    {
        let clean_name = trimmed(name);
        // only the left side: a space on the right belongs to some icons
        let clean_icon = trimmed_start(icon);
        let id: usize = arena.nodes.len();
        arena.nodes.push(
            NodeInner {
                name: clean_name,
                icon: clean_icon,
                is_expanded,
                parent: None,
                prev: None,
                next: None,
                data: None,
                children: Vec::new(),
            },
        );
        let node = Node { id };
        let len: usize = arena.nodes.len();
        proof {
            let g = old(arena)@;
            let g1 = g.with_node(trim(name@), trim_start(icon@));
            let g2 = g1.with_expanded(node, is_expanded);
            crate::text::lemma_trim_idempotent(name@);
            crate::text::lemma_trim_start_fixed(icon@);
            g.lemma_with_node_wf(trim(name@), trim_start(icon@));
            assert(arena@.nodes =~= g2.nodes);
            g1.lemma_with_expanded_wf(node, is_expanded);
        }
        node
    }

    /// The name of the node.
    pub fn name(&self, arena: &Arena) -> (r: String)
        requires
            arena@.contains(*self),
        ensures
            r@ == arena@.name(*self),
    {
        arena.nodes[self.id].name.clone()
    }

    /// Give the node the trimmed `name`, unless that is empty.
    pub fn set_name(&self, arena: &mut Arena, name: &str) -> (r: Result<(), NodeError>)
        requires
            old(arena).wf(),
            old(arena)@.contains(*self),
        ensures
            final(arena).wf(),
            trim(name@).len() == 0 ==> r == Err::<(), NodeError>(NodeError::EmptyName)
                && final(arena)@ == old(arena)@,
            trim(name@).len() > 0 ==> r is Ok
                && final(arena)@ == old(arena)@.with_name(*self, trim(name@)),
    {
        let clean = trimmed(name);
        if clean.as_str().unicode_len() == 0 {
            return Err(NodeError::EmptyName);
        }
        proof {
            crate::text::lemma_trim_idempotent(name@);
            old(arena)@.lemma_with_name_wf(*self, clean@);
        }
        arena.nodes[self.id].name = clean;
        proof {
            assert(arena@.nodes =~= old(arena)@.with_name(*self, trim(name@)).nodes);
        }
        Ok(())
    }

    /// The icon of the node, followed by a space unless it is empty.
    pub fn icon(&self, arena: &Arena) -> (r: String)
        requires
            arena@.contains(*self),
        ensures
            r@ == if arena@.icon(*self).len() == 0 {
                Seq::<char>::empty()
            } else {
                arena@.icon(*self).push(' ')
            },
    {
        let icon = &arena.nodes[self.id].icon;
        if icon.as_str().unicode_len() == 0 {
            String::new()
        } else {
            let mut r = icon.clone();
            push_char(&mut r, ' ');
            r
        }
    }

    /// Give the node `icon`, trimmed at its start.
    pub fn set_icon(&self, arena: &mut Arena, icon: &str)
        requires
            old(arena).wf(),
            old(arena)@.contains(*self),
        ensures
            final(arena).wf(),
            final(arena)@ == old(arena)@.with_icon(*self, trim_start(icon@)),
    {
        let clean = trimmed_start(icon);
        proof {
            crate::text::lemma_trim_start_fixed(icon@);
            old(arena)@.lemma_with_icon_wf(*self, clean@);
        }
        arena.nodes[self.id].icon = clean;
        proof {
            assert(arena@.nodes =~= old(arena)@.with_icon(*self, trim_start(icon@)).nodes);
        }
    }

    /// The data of the node.
    pub fn data(&self, arena: &Arena) -> (r: Option<NodeData>)
        requires
            arena@.contains(*self),
        ensures
            data_view(r) == arena@.data(*self),
    {
        match &arena.nodes[self.id].data {
            Some(d) => Some(d.clone()),
            None => None,
        }
    }

    /// Whether the node shows its children.
    pub fn is_expanded(&self, arena: &Arena) -> (r: bool)
        requires
            arena@.contains(*self),
        ensures
            r == arena@.is_expanded(*self),
    {
        arena.nodes[self.id].is_expanded
    }

    /// Expand or collapse the node.
    pub fn set_expanded(&self, arena: &mut Arena, is_expanded: bool)
        requires
            old(arena).wf(),
            old(arena)@.contains(*self),
        ensures
            final(arena).wf(),
            final(arena)@ == old(arena)@.with_expanded(*self, is_expanded),
    {
        proof {
            old(arena)@.lemma_with_expanded_wf(*self, is_expanded);
        }
        arena.nodes[self.id].is_expanded = is_expanded;
        proof {
            assert(arena@.nodes =~= old(arena)@.with_expanded(*self, is_expanded).nodes);
        }
    }

    /// Expand the node if it is collapsed, collapse it if it is expanded.
    pub fn toggle_expand(&self, arena: &mut Arena)
        requires
            old(arena).wf(),
            old(arena)@.contains(*self),
        ensures
            final(arena).wf(),
            final(arena)@ == old(arena)@.with_expanded(*self, !old(arena)@.is_expanded(*self)),
    {
        let flipped: bool = !arena.nodes[self.id].is_expanded;
        self.set_expanded(arena, flipped);
    }

    /// Whether the node has at least one child.
    pub fn has_children(&self, arena: &Arena) -> (r: bool)
        requires
            arena@.contains(*self),
        ensures
            r == (arena@.children(*self).len() > 0),
    {
        arena.nodes[self.id].children.len() > 0
    }

    /// The parent of the node.
    pub fn parent(&self, arena: &Arena) -> (r: Result<Node, NodeError>)
        requires
            arena.wf(),
            arena@.contains(*self),
        ensures
            match arena@.parent(*self) {
                Some(p) => r == Ok::<Node, NodeError>(p) && arena@.contains(p),
                None => r == Err::<Node, NodeError>(NodeError::NoParent),
            },
    {
        proof {
            assert(arena@.node_ok(*self));
        }
        match &arena.nodes[self.id].parent {
            Some(w) => match w.upgrade(arena) {
                Some(p) => Ok(p),
                None => Err(NodeError::NoParent),
            },
            None => Err(NodeError::NoParent),
        }
    }

    /// The sibling just before the node.
    pub fn prev(&self, arena: &Arena) -> (r: Option<Node>)
        requires
            arena@.contains(*self),
        ensures
            r == arena@.prev(*self),
    {
        arena.nodes[self.id].prev
    }

    /// The sibling just after the node.
    pub fn next(&self, arena: &Arena) -> (r: Option<Node>)
        requires
            arena@.contains(*self),
        ensures
            r == arena@.next(*self),
    {
        arena.nodes[self.id].next
    }

    /// The place of the node among the children of `parent`.
    pub fn get_index(&self, arena: &Arena, parent: &Node) -> (r: Result<usize, NodeError>)
        requires
            arena.wf(),
            arena@.contains(*parent),
        ensures
            match r {
                Ok(i) => arena@.children(*parent).contains(*self) && i == arena@.position(
                    *parent,
                    *self,
                ),
                Err(e) => !arena@.children(*parent).contains(*self) && e
                    == NodeError::NotContainedInParent,
            },
    {
        let kids = &arena.nodes[parent.id].children;
        let mut i: usize = 0;
        while i < kids.len()
            invariant
                arena.wf(),
                arena@.contains(*parent),
                i <= kids.len(),
                kids@ == arena@.children(*parent),
                forall|j: int| 0 <= j < i ==> kids@[j] != *self,
            decreases kids.len() - i,
        {
            if kids[i] == *self {
                proof {
                    assert(arena@.children(*parent).contains(*self));
                    arena@.lemma_position(*parent, *self);
                }
                return Ok(i);
            }
            i = i + 1;
        }
        Err(NodeError::NotContainedInParent)
    }

    /// The place of the node among the children of its parent.
    pub fn get_index_from_parent(&self, arena: &Arena) -> (r: Result<usize, NodeError>)
        requires
            arena.wf(),
            arena@.contains(*self),
        ensures
            match arena@.parent(*self) {
                Some(p) => r == Ok::<usize, NodeError>(arena@.position(p, *self) as usize),
                None => r == Err::<usize, NodeError>(NodeError::NoParent),
            },
    {
        match self.parent(arena) {
            Ok(p) => {
                proof {
                    arena@.lemma_parent_holds(*self);
                    arena@.lemma_position(p, *self);
                }
                self.get_index(arena, &p)
            },
            Err(e) => Err(e),
        }
    }

    /// Make `node` the `i`-th child of `parent`.
    fn insert_at(arena: &mut Arena, parent: Node, i: usize, node: Node)
        requires
            old(arena).wf(),
            old(arena)@.contains(parent),
            old(arena)@.contains(node),
            i <= old(arena)@.children(parent).len(),
            old(arena)@.parent(node) is None,
            !old(arena)@.ancestor_or_self(node, parent),
        ensures
            final(arena)@ == old(arena)@.attach(parent, i as int, node),
            final(arena).wf(),
    {
        let len: usize = arena.nodes[parent.id].children.len();
        let before: Option<Node> = if i > 0 {
            Some(arena.nodes[parent.id].children[i - 1])
        } else {
            None
        };
        let after: Option<Node> = if i < len {
            Some(arena.nodes[parent.id].children[i])
        } else {
            None
        };
        proof {
            let g = old(arena)@;
            g.lemma_attach_frame(parent, i as int, node);
            if i > 0 {
                g.lemma_child(parent, i - 1);
            }
            if i < len {
                g.lemma_child(parent, i as int);
            }
        }
        arena.nodes[node.id].parent = Some(parent.downgrade());
        arena.nodes[node.id].prev = before;
        arena.nodes[node.id].next = after;
        if let Some(b) = before {
            arena.nodes[b.id].next = Some(node);
        }
        if let Some(a) = after {
            arena.nodes[a.id].prev = Some(node);
        }
        arena.nodes[parent.id].children.insert(i, node);
        proof {
            let g = old(arena)@;
            let h = g.attach(parent, i as int, node);
            assert(g.node_ok(parent));
            if 0 < i < len {
                assert(g.children(parent)[i - 1] != g.children(parent)[i as int]);
            }
            assert(arena@.nodes =~= h.nodes);
            g.lemma_attach_wf(parent, i as int, node);
        }
    }

    /// Make `node` the first child of this node.
    ///
    /// `node` must be without a parent and must not stand above this node.
    pub fn insert_top(&self, arena: &mut Arena, node: Node)
        requires
            old(arena).wf(),
            old(arena)@.contains(*self),
            old(arena)@.contains(node),
            old(arena)@.parent(node) is None,
            !old(arena)@.ancestor_or_self(node, *self),
        ensures
            final(arena)@ == old(arena)@.attach(*self, 0, node),
            final(arena).wf(),
    {
        Node::insert_at(arena, *self, 0, node);
    }

    /// Make `node` the last child of this node.
    ///
    /// `node` must be without a parent and must not stand above this node.
    pub fn insert_bottom(&self, arena: &mut Arena, node: Node)
        requires
            old(arena).wf(),
            old(arena)@.contains(*self),
            old(arena)@.contains(node),
            old(arena)@.parent(node) is None,
            !old(arena)@.ancestor_or_self(node, *self),
        ensures
            final(arena)@ == old(arena)@.attach(
                *self,
                old(arena)@.children(*self).len() as int,
                node,
            ),
            final(arena).wf(),
    {
        let len: usize = arena.nodes[self.id].children.len();
        Node::insert_at(arena, *self, len, node);
    }

    /// Make `node` the sibling just before this node.
    ///
    /// `node` must be without a parent and must not stand above the parent
    /// of this node.
    pub fn insert_before(&self, arena: &mut Arena, node: Node) -> (r: Result<(), NodeError>)
        requires
            old(arena).wf(),
            old(arena)@.contains(*self),
            old(arena)@.contains(node),
            old(arena)@.parent(node) is None,
            old(arena)@.parent(*self) matches Some(p) ==> !old(arena)@.ancestor_or_self(node, p),
        ensures
            final(arena).wf(),
            match old(arena)@.parent(*self) {
                Some(p) => r is Ok && final(arena)@ == old(arena)@.attach(
                    p,
                    old(arena)@.position(p, *self),
                    node,
                ),
                None => r == Err::<(), NodeError>(NodeError::NoParent) && final(arena)@ == old(arena)@,
            },
    {
        let parent = match self.parent(arena) {
            Ok(p) => p,
            Err(e) => {
                return Err(e);
            },
        };
        proof {
            arena@.lemma_parent_holds(*self);
            arena@.lemma_position(parent, *self);
        }
        let i = match self.get_index(arena, &parent) {
            Ok(i) => i,
            Err(e) => {
                return Err(e);
            },
        };
        Node::insert_at(arena, parent, i, node);
        Ok(())
    }

    /// Make `node` the sibling just after this node.
    ///
    /// `node` must be without a parent and must not stand above the parent
    /// of this node.
    pub fn insert_after(&self, arena: &mut Arena, node: Node) -> (r: Result<(), NodeError>)
        requires
            old(arena).wf(),
            old(arena)@.contains(*self),
            old(arena)@.contains(node),
            old(arena)@.parent(node) is None,
            old(arena)@.parent(*self) matches Some(p) ==> !old(arena)@.ancestor_or_self(node, p),
        ensures
            final(arena).wf(),
            match old(arena)@.parent(*self) {
                Some(p) => r is Ok && final(arena)@ == old(arena)@.attach(
                    p,
                    old(arena)@.position(p, *self) + 1,
                    node,
                ),
                None => r == Err::<(), NodeError>(NodeError::NoParent) && final(arena)@ == old(arena)@,
            },
    {
        let parent = match self.parent(arena) {
            Ok(p) => p,
            Err(e) => {
                return Err(e);
            },
        };
        proof {
            arena@.lemma_parent_holds(*self);
            arena@.lemma_position(parent, *self);
        }
        let i = match self.get_index(arena, &parent) {
            Ok(i) => i,
            Err(e) => {
                return Err(e);
            },
        };
        let len: usize = arena.nodes[parent.id].children.len();
        assert(i < len);
        Node::insert_at(arena, parent, i + 1, node);
        Ok(())
    }

    /// Take `node` out of the children of this node.
    ///
    /// The node keeps its own children and is left without parent and
    /// siblings; its two neighbours become each other's.
    pub fn delete(&self, arena: &mut Arena, node: Node) -> (r: Result<(), NodeError>)
        requires
            old(arena).wf(),
            old(arena)@.contains(*self),
        ensures
            final(arena).wf(),
            if old(arena)@.children(*self).contains(node) {
                r is Ok && final(arena)@ == old(arena)@.detach(
                    *self,
                    old(arena)@.position(*self, node),
                )
            } else {
                r == Err::<(), NodeError>(NodeError::NotContainedInParent) && final(arena)@ == old(arena)@
            },
    {
        let i = match node.get_index(arena, self) {
            Ok(i) => i,
            Err(e) => {
                return Err(e);
            },
        };
        proof {
            let g = old(arena)@;
            g.lemma_position(*self, node);
            g.lemma_child(*self, i as int);
            g.lemma_detach_frame(*self, i as int);
            if i > 0 {
                g.lemma_child(*self, i - 1);
            }
            if i + 1 < g.children(*self).len() {
                g.lemma_child(*self, i + 1);
            }
        }
        let before: Option<Node> = arena.nodes[node.id].prev;
        let after: Option<Node> = arena.nodes[node.id].next;
        let _ = arena.nodes[self.id].children.remove(i);
        if let Some(b) = before {
            arena.nodes[b.id].next = after;
        }
        if let Some(a) = after {
            arena.nodes[a.id].prev = before;
        }
        arena.nodes[node.id].parent = None;
        arena.nodes[node.id].prev = None;
        arena.nodes[node.id].next = None;
        proof {
            let g = old(arena)@;
            assert(arena@.nodes =~= g.detach(*self, i as int).nodes);
            g.lemma_detach_wf(*self, i as int);
        }
        Ok(())
    }

    /// Take `node` out of the children of its parent, which it has.
    fn release(arena: &mut Arena, node: Node, parent: Node)
        requires
            old(arena).wf(),
            old(arena)@.contains(node),
            old(arena)@.parent(node) == Some(parent),
        ensures
            final(arena).wf(),
            final(arena)@ == old(arena)@.released(node),
            final(arena)@.len() == old(arena)@.len(),
            final(arena)@.parent(node) is None,
            forall|x: Node|
                old(arena)@.contains(x) && x != node ==> final(arena)@.parent(x)
                    == old(arena)@.parent(x),
            forall|a: Node, x: Node|
                old(arena)@.contains(x) && final(arena)@.ancestor_or_self(a, x)
                    ==> old(arena)@.ancestor_or_self(a, x),
    {
        proof {
            let g = old(arena)@;
            g.lemma_parent_holds(node);
            g.lemma_position(parent, node);
            let i = g.position(parent, node);
            g.lemma_detach_frame(parent, i);
            assert forall|a: Node, x: Node|
                g.contains(x) && g.detach(parent, i).ancestor_or_self(a, x) implies g.ancestor_or_self(
                a,
                x,
            ) by {
                g.lemma_detach_ancestor(parent, i, a, x);
            }
            assert forall|x: Node| g.contains(x) && x != node implies g.detach(parent, i).parent(x)
                == g.parent(x) by {
                let _ = g.detach(parent, i).at(x);
            }
        }
        let r = parent.delete(arena, node);
        assert(r is Ok);
    }

    /// Take `node` from where it is and make it the first child of this
    /// node.
    ///
    /// `node` must not stand above this node.
    pub fn move_top(&self, arena: &mut Arena, node: Node) -> (r: Result<(), NodeError>)
        requires
            old(arena).wf(),
            old(arena)@.contains(*self),
            old(arena)@.contains(node),
            !old(arena)@.ancestor_or_self(node, *self),
        ensures
            final(arena).wf(),
            match old(arena)@.parent(node) {
                Some(_) => r is Ok && final(arena)@ == old(arena)@.released(node).attach(
                    *self,
                    0,
                    node,
                ),
                None => r == Err::<(), NodeError>(NodeError::NoParent) && final(arena)@ == old(arena)@,
            },
    {
        let parent = match node.parent(arena) {
            Ok(p) => p,
            Err(e) => {
                return Err(e);
            },
        };
        Node::release(arena, node, parent);
        self.insert_top(arena, node);
        Ok(())
    }

    /// Take `node` from where it is and make it the last child of this
    /// node.
    ///
    /// `node` must not stand above this node.
    pub fn move_bottom(&self, arena: &mut Arena, node: Node) -> (r: Result<(), NodeError>)
        requires
            old(arena).wf(),
            old(arena)@.contains(*self),
            old(arena)@.contains(node),
            !old(arena)@.ancestor_or_self(node, *self),
        ensures
            final(arena).wf(),
            match old(arena)@.parent(node) {
                Some(_) => r is Ok && final(arena)@ == old(arena)@.released(node).attach(
                    *self,
                    old(arena)@.released(node).children(*self).len() as int,
                    node,
                ),
                None => r == Err::<(), NodeError>(NodeError::NoParent) && final(arena)@ == old(arena)@,
            },
    {
        let parent = match node.parent(arena) {
            Ok(p) => p,
            Err(e) => {
                return Err(e);
            },
        };
        Node::release(arena, node, parent);
        self.insert_bottom(arena, node);
        Ok(())
    }

    /// Take `node` from where it is and make it the sibling just before
    /// this node.
    ///
    /// The two steps are not undone: when this node has no parent once
    /// `node` has left its own, `node` stays without a parent.
    /// `node` must not stand above the parent of this node.
    pub fn move_before(&self, arena: &mut Arena, node: Node) -> (r: Result<(), NodeError>)
        requires
            old(arena).wf(),
            old(arena)@.contains(*self),
            old(arena)@.contains(node),
            old(arena)@.parent(*self) matches Some(p) ==> !old(arena)@.ancestor_or_self(node, p),
        ensures
            final(arena).wf(),
            match old(arena)@.parent(node) {
                Some(_) => {
                    let g = old(arena)@.released(node);
                    match g.parent(*self) {
                        Some(p) => r is Ok && final(arena)@ == g.attach(
                            p,
                            g.position(p, *self),
                            node,
                        ),
                        None => r == Err::<(), NodeError>(NodeError::NoParent) && final(arena)@
                            == g,
                    }
                },
                None => r == Err::<(), NodeError>(NodeError::NoParent) && final(arena)@ == old(arena)@,
            },
    {
        let parent = match node.parent(arena) {
            Ok(p) => p,
            Err(e) => {
                return Err(e);
            },
        };
        proof {
            if old(arena)@.parent(*self) is Some {
                let _ = old(arena)@.at(old(arena)@.parent(*self)->0);
                old(arena)@.lemma_parent_holds(*self);
            }
        }
        Node::release(arena, node, parent);
        self.insert_before(arena, node)
    }

    /// Take `node` from where it is and make it the sibling just after
    /// this node.
    ///
    /// The two steps are not undone: when this node has no parent once
    /// `node` has left its own, `node` stays without a parent.
    /// `node` must not stand above the parent of this node.
    pub fn move_after(&self, arena: &mut Arena, node: Node) -> (r: Result<(), NodeError>)
        requires
            old(arena).wf(),
            old(arena)@.contains(*self),
            old(arena)@.contains(node),
            old(arena)@.parent(*self) matches Some(p) ==> !old(arena)@.ancestor_or_self(node, p),
        ensures
            final(arena).wf(),
            match old(arena)@.parent(node) {
                Some(_) => {
                    let g = old(arena)@.released(node);
                    match g.parent(*self) {
                        Some(p) => r is Ok && final(arena)@ == g.attach(
                            p,
                            g.position(p, *self) + 1,
                            node,
                        ),
                        None => r == Err::<(), NodeError>(NodeError::NoParent) && final(arena)@
                            == g,
                    }
                },
                None => r == Err::<(), NodeError>(NodeError::NoParent) && final(arena)@ == old(arena)@,
            },
    {
        let parent = match node.parent(arena) {
            Ok(p) => p,
            Err(e) => {
                return Err(e);
            },
        };
        proof {
            if old(arena)@.parent(*self) is Some {
                let _ = old(arena)@.at(old(arena)@.parent(*self)->0);
                old(arena)@.lemma_parent_holds(*self);
            }
        }
        Node::release(arena, node, parent);
        self.insert_after(arena, node)
    }

    /// Give the node `data`, where the data it has allows it.
    pub fn set_data(&self, arena: &mut Arena, data: NodeData) -> (r: Result<(), NodeError>)
        requires
            old(arena).wf(),
            old(arena)@.contains(*self),
        ensures
            final(arena).wf(),
            r == set_data_outcome(old(arena)@.data(*self), data@),
            final(arena)@ == if r is Ok {
                old(arena)@.with_data(*self, Some(data@))
            } else {
                old(arena)@
            },
    {
        let allowed: Result<(), NodeError> = match (&arena.nodes[self.id].data, &data) {
            (None, NodeData::Link(link)) => {
                if link.as_str().unicode_len() == 0 {
                    Err(NodeError::NoData)
                } else {
                    Ok(())
                }
            },
            (None, NodeData::File(path)) => {
                if path.as_str().unicode_len() == 0 {
                    Err(NodeError::NoData)
                } else {
                    Ok(())
                }
            },
            (Some(NodeData::Link(_)), NodeData::Link(_)) => Ok(()),
            (Some(NodeData::File(_)), NodeData::File(_)) => Err(NodeError::FileDataAlreadyExists),
            _ => Err(NodeError::MismatchDataType),
        };
        if allowed.is_ok() {
            proof {
                old(arena)@.lemma_with_data_wf(*self, Some(data@));
            }
            arena.nodes[self.id].data = Some(data);
            proof {
                assert(arena@.nodes =~= old(arena)@.with_data(*self, Some(data@)).nodes);
            }
        }
        allowed
    }

    /// The node on row `line` of the listing of this node, counted from 0.
    ///
    /// With it comes what is left of `line` once the rows of this node are
    /// taken off: 0 when the row was found.
    pub fn get_node_by_line(&self, arena: &Arena, line: usize) -> (r: (usize, Option<Node>))
        requires
            arena.wf(),
            arena@.contains(*self),
        ensures
            line < arena@.rows(*self).len() ==> r.0 == 0 && r.1 == Some(
                arena@.rows(*self)[line as int],
            ) && arena@.contains(r.1->0),
            line >= arena@.rows(*self).len() ==> r.0 == line - arena@.rows(*self).len() && r.1
                is None,
        decreases arena@.height(*self),
    {
        if line == 0 {
            return (0, Some(*self));
        }
        let ghost whole = arena@.rows(*self);
        // step over this node
        let mut left: usize = line - 1;
        let kids = &arena.nodes[self.id].children;
        if !arena.nodes[self.id].is_expanded || kids.len() == 0 {
            proof {
                if arena@.is_expanded(*self) {
                    assert(arena@.rows_from(*self, 0) =~= Seq::<Node>::empty());
                }
            }
            return (left, None);
        }
        let ghost below = arena@.rows_from(*self, 0);
        let ghost wanted = left as int;
        let ghost mut passed: Seq<Node> = Seq::empty();
        let mut i: usize = 0;
        proof {
            assert(arena@.rows(*self) =~= seq![*self] + below);
            assert(passed + arena@.rows_from(*self, 0) =~= below);
        }
        while i < kids.len()
            invariant
                arena.wf(),
                arena@.contains(*self),
                kids@ == arena@.children(*self),
                i <= kids.len(),
                whole == arena@.rows(*self),
                whole == seq![*self] + below,
                below == passed + arena@.rows_from(*self, i as int),
                wanted + 1 == line,
                left == wanted - passed.len(),
            decreases kids.len() - i,
        {
            proof {
                arena@.lemma_child(*self, i as int);
            }
            let child = kids[i];
            let (rest, found) = child.get_node_by_line(arena, left);
            if found.is_some() {
                proof {
                    assert(below[wanted] == arena@.rows(child)[left as int]);
                    assert(whole[wanted + 1] == below[wanted]);
                }
                return (rest, found);
            }
            proof {
                assert(passed + arena@.rows(child) + arena@.rows_from(*self, i + 1) =~= passed
                    + arena@.rows_from(*self, i as int));
                passed = passed + arena@.rows(child);
            }
            left = rest;
            i = i + 1;
        }
        proof {
            assert(arena@.rows_from(*self, i as int) =~= Seq::<Node>::empty());
            assert(below =~= passed);
        }
        (left, None)
    }

    /// The first child of the node that is named `name`.
    pub fn find_child(&self, arena: &Arena, name: &str) -> (r: Option<Node>)
        requires
            arena.wf(),
            arena@.contains(*self),
        ensures
            r == arena@.find_child(*self, name@),
            r matches Some(c) ==> arena@.contains(c),
    {
        let kids = &arena.nodes[self.id].children;
        let wanted = name.to_owned();
        let mut i: usize = 0;
        while i < kids.len()
            invariant
                arena.wf(),
                arena@.contains(*self),
                kids@ == arena@.children(*self),
                i <= kids.len(),
                wanted@ == name@,
                arena@.find_child(*self, name@) == arena@.find_child_from(*self, name@, i as int),
            decreases kids.len() - i,
        {
            proof {
                arena@.lemma_child(*self, i as int);
            }
            let child = kids[i];
            if arena.nodes[child.id].name == wanted {
                return Some(child);
            }
            i = i + 1;
        }
        None
    }

    /// The node at the end of `path`, walked from this node by the names of
    /// children.
    ///
    /// With `auto_create_nodes` a child that is missing on the way is made,
    /// with the trimmed segment as its name and no icon, and the walk goes
    /// on through it. Without, the walk ends there with `None` and nothing
    /// changes.
    pub fn get_node_by_path(
        &self,
        arena: &mut Arena,
        path: &[&str],
        auto_create_nodes: bool,
    ) -> (r: Option<Node>)
        requires
            old(arena).wf(),
            old(arena)@.contains(*self),
        ensures
            final(arena).wf(),
            (final(arena)@, r) == old(arena)@.walk(*self, path.deep_view(), auto_create_nodes),
            r matches Some(n) ==> final(arena)@.contains(n),
            !auto_create_nodes ==> final(arena)@ == old(arena)@,
            auto_create_nodes ==> r is Some,
            final(arena)@.len() >= old(arena)@.len(),
    {
        let ghost segments = path.deep_view();
        let mut current: Node = *self;
        let mut i: usize = 0;
        proof {
            assert(segments.skip(0) =~= segments);
        }
        while i < path.len()
            invariant
                arena.wf(),
                arena@.contains(current),
                i <= path.len(),
                segments == path.deep_view(),
                arena@.len() >= old(arena)@.len(),
                !auto_create_nodes ==> arena@ == old(arena)@,
                old(arena)@.walk(*self, segments, auto_create_nodes) == arena@.walk(
                    current,
                    segments.skip(i as int),
                    auto_create_nodes,
                ),
            decreases path.len() - i,
        {
            let segment: &str = path[i];
            proof {
                let rest = segments.skip(i as int);
                assert(rest[0] == segment@);
                assert(rest.drop_first() =~= segments.skip(i + 1));
            }
            match current.find_child(arena, segment) {
                Some(child) => {
                    current = child;
                },
                None => {
                    if !auto_create_nodes {
                        return None;
                    }
                    let ghost before = arena@;
                    let child = Node::new(arena, segment, "");
                    proof {
                        reveal_strlit("");
                        assert(""@ =~= Seq::<char>::empty());
                        assert(trim_start(""@) =~= Seq::<char>::empty());
                        let grown = before.with_node(trim(segment@), Seq::empty());
                        grown.lemma_fresh_is_apart(before, child, current);
                        assert(grown.children(current) == before.children(current));
                    }
                    current.insert_bottom(arena, child);
                    current = child;
                },
            }
            i = i + 1;
        }
        proof {
            assert(segments.skip(i as int) =~= Seq::<Seq<char>>::empty());
        }
        Some(current)
    }

    /// The paths of this node and of what stands below it that `filter`
    /// keeps, parents before children; `prefix` is the path of this node.
    pub fn paths(&self, arena: &Arena, prefix: &str, filter: NodeFilter) -> (r: Vec<String>)
        requires
            arena.wf(),
            arena@.contains(*self),
        ensures
            r.deep_view() == arena@.paths(*self, prefix@, filter),
    {
        let mut all_paths: Vec<String> = Vec::new();
        if filter.accepts(arena, self) {
            all_paths.push(prefix.to_owned());
        }
        let is_root: bool = prefix.unicode_len() == 1 && prefix.get_char(0) == '/';
        let base: &str = if is_root {
            ""
        } else {
            prefix
        };
        proof {
            reveal_strlit("");
            assert(""@ =~= Seq::<char>::empty());
            assert(is_root == (prefix@ == seq!['/'])) by {
                if is_root {
                    assert(prefix@ =~= seq!['/']);
                }
            }
            assert(all_paths.deep_view() =~= (if filter.admits(arena@.data(*self)) {
                seq![prefix@]
            } else {
                Seq::empty()
            }));
        }
        self.paths_rec(arena, base, &mut all_paths, filter);
        all_paths
    }

    /// Append to `paths` the paths of what stands below this node, whose
    /// own path is `parent`.
    fn paths_rec(&self, arena: &Arena, parent: &str, paths: &mut Vec<String>, filter: NodeFilter)
        requires
            arena.wf(),
            arena@.contains(*self),
        ensures
            final(paths).deep_view() == old(paths).deep_view() + arena@.paths_below(
                *self,
                parent@,
                filter,
                0,
            ),
        decreases arena@.height(*self),
    {
        let kids = &arena.nodes[self.id].children;
        let ghost goal = old(paths).deep_view() + arena@.paths_below(*self, parent@, filter, 0);
        let mut i: usize = 0;
        while i < kids.len()
            invariant
                arena.wf(),
                arena@.contains(*self),
                kids@ == arena@.children(*self),
                i <= kids.len(),
                goal == paths.deep_view() + arena@.paths_below(*self, parent@, filter, i as int),
            decreases kids.len() - i,
        {
            proof {
                arena@.lemma_child(*self, i as int);
            }
            let child = kids[i];
            let mut path: String = parent.to_owned();
            push_char(&mut path, '/');
            path.append(arena.nodes[child.id].name.as_str());
            let ghost so_far = paths.deep_view();
            let ghost text = parent@ + seq!['/'] + arena@.name(child);
            proof {
                assert(path@ =~= text);
            }
            if filter.accepts(arena, &child) {
                paths.push(path.clone());
                proof {
                    assert(paths.deep_view() =~= so_far + seq![text]);
                }
            }
            let ghost with_child = paths.deep_view();
            child.paths_rec(arena, path.as_str(), paths, filter);
            proof {
                let own = if filter.admits(arena@.data(child)) {
                    seq![text]
                } else {
                    Seq::empty()
                };
                let below = arena@.paths_below(child, text, filter, 0);
                let rest = arena@.paths_below(*self, parent@, filter, i + 1);
                assert(with_child =~= so_far + own);
                assert(arena@.paths_below(*self, parent@, filter, i as int) == own + below + rest);
                assert(so_far + (own + below + rest) =~= (so_far + own + below) + rest);
            }
            i = i + 1;
        }
        proof {
            assert(arena@.paths_below(*self, parent@, filter, i as int) =~= Seq::<
                Seq<char>,
            >::empty());
            assert(paths.deep_view() + Seq::<Seq<char>>::empty() =~= paths.deep_view());
        }
    }

    /// Append to `out` the paths of this node and of what stands below it
    /// that `filter` keeps, one to a line.
    pub fn write_paths(&self, arena: &Arena, prefix: &str, filter: NodeFilter, out: &mut String)
        requires
            arena.wf(),
            arena@.contains(*self),
        ensures
            final(out)@ == old(out)@ + joined_lines(arena@.paths(*self, prefix@, filter)),
    {
        let paths = self.paths(arena, prefix, filter);
        let ghost lines = paths.deep_view();
        let mut i: usize = 0;
        while i < paths.len()
            invariant
                i <= paths.len(),
                lines == paths.deep_view(),
                out@ == old(out)@ + joined_lines(lines.take(i as int)),
            decreases paths.len() - i,
        {
            out.append(paths[i].as_str());
            push_char(out, '\n');
            proof {
                let done = lines.take(i + 1);
                assert(done.drop_last() =~= lines.take(i as int));
                assert(done.last() == paths[i as int]@);
                assert(out@ =~= old(out)@ + joined_lines(done));
            }
            i = i + 1;
        }
        proof {
            assert(lines.take(i as int) =~= lines);
        }
    }

    /// The document node that stands for this node and all below it.
    pub fn into_encoding(&self, arena: &Arena) -> (r: encoding::Node)
        requires
            arena.wf(),
            arena@.contains(*self),
        ensures
            r@ == arena@.encoded(*self),
        decreases arena@.height(*self),
    {
        let inner = &arena.nodes[self.id];
        let data: Option<String>;
        let url: Option<String>;
        match &inner.data {
            Some(NodeData::File(path)) => {
                data = Some(path.clone());
                url = None;
            },
            Some(NodeData::Link(link)) => {
                url = Some(link.clone());
                data = None;
            },
            None => {
                data = None;
                url = None;
            },
        }
        let mut contents: Vec<encoding::Text> = Vec::new();
        contents.push(encoding::Text { text: inner.name.clone() });
        let mut children: Vec<encoding::Node> = Vec::new();
        let mut i: usize = 0;
        while i < inner.children.len()
            invariant
                arena.wf(),
                arena@.contains(*self),
                inner.children@ == arena@.children(*self),
                i <= inner.children.len(),
                children@.len() == i,
                forall|k: int|
                    0 <= k < i ==> (#[trigger] children@[k])@ == arena@.encoded(
                        arena@.children(*self)[k],
                    ),
            decreases inner.children.len() - i,
        {
            proof {
                arena@.lemma_child(*self, i as int);
            }
            let child = inner.children[i];
            children.push(child.into_encoding(arena));
            i = i + 1;
        }
        let r = encoding::Node {
            icon: inner.icon.clone(),
            is_expanded: inner.is_expanded,
            contents,
            data,
            url,
            children,
        };
        proof {
            r.lemma_view();
            arena@.lemma_encoded_from(*self, 0);
            let v = arena@.encoded(*self);
            assert(r@.contents =~= v.contents);
            assert(r@.children =~= v.children);
        }
        r
    }

    /// Read `node` and all below it into `arena`.
    ///
    /// The node that comes back is new and has no parent. It is written as
    /// the normal form of `node`: the last of the texts, trimmed, is its
    /// name, and a file goes before a link. No node that was in the arena
    /// changes.
    pub fn from_encoding(arena: &mut Arena, node: encoding::Node) -> (r: Node)
        requires
            old(arena).wf(),
        ensures
            final(arena).wf(),
            r == old(arena)@.fresh(),
            final(arena)@.contains(r),
            final(arena)@.len() == old(arena)@.len() + size(node@),
            final(arena)@.parent(r) is None,
            final(arena)@.encoded(r) == normal(node@),
            forall|x: Node| old(arena)@.contains(x) ==> final(arena)@.at(x) == old(arena)@.at(x),
    {
        Node::from_encoding_rec(arena, &node)
    }

    fn from_encoding_rec(arena: &mut Arena, node: &encoding::Node) -> (r: Node)
        requires
            old(arena).wf(),
        ensures
            final(arena).wf(),
            r == old(arena)@.fresh(),
            final(arena)@.contains(r),
            final(arena)@.len() == old(arena)@.len() + size(node@),
            final(arena)@.parent(r) is None,
            final(arena)@.encoded(r) == normal(node@),
            forall|x: Node| old(arena)@.contains(x) ==> final(arena)@.at(x) == old(arena)@.at(x),
        decreases node,
    {
        let n_texts: usize = node.contents.len();
        let name: &str = if n_texts > 0 {
            node.contents[n_texts - 1].text.as_str()
        } else {
            ""
        };
        let current = Node::new_raw(arena, name, node.icon.as_str(), node.is_expanded);
        let data: Option<NodeData> = match &node.data {
            Some(path) => Some(NodeData::File(path.clone())),
            None => match &node.url {
                Some(link) => Some(NodeData::Link(link.clone())),
                None => None,
            },
        };
        proof {
            reveal_strlit("");
            assert(""@ =~= Seq::<char>::empty());
            node.lemma_view();
            arena@.lemma_with_data_wf(current, data_view(data));
        }
        let ghost made = arena@;
        arena.nodes[current.id].data = data;
        proof {
            assert(arena@.nodes =~= made.with_data(current, data_view(data)).nodes);
            assert(arena@.children(current) =~= Seq::<Node>::empty());
        }
        let mut i: usize = 0;
        while i < node.children.len()
            invariant
                old(arena).wf(),
                arena.wf(),
                current == old(arena)@.fresh(),
                arena@.contains(current),
                arena@.len() > old(arena)@.len(),
                arena@.len() + size_from(node@, i as int) == old(arena)@.len() + size(node@),
                arena@.parent(current) is None,
                arena@.name(current) == decoded_name(node@),
                arena@.icon(current) == trim_start(node@.icon),
                arena@.is_expanded(current) == node@.is_expanded,
                arena@.data(current) == decoded_data(node@),
                i <= node.children.len(),
                arena@.children(current).len() == i,
                forall|k: int|
                    0 <= k < i ==> (#[trigger] arena@.children(current)[k]).id >= old(arena)@.len(),
                forall|k: int|
                    0 <= k < i ==> arena@.encoded(#[trigger] arena@.children(current)[k])
                        == normal(node@.children[k]),
                forall|x: Node|
                    old(arena)@.contains(x) ==> arena@.at(x) == old(arena)@.at(x),
            decreases node.children.len() - i,
        {
            let ghost before = arena@;
            let child = Node::from_encoding_rec(arena, &node.children[i]);
            let ghost read = arena@;
            proof {
                node.lemma_view();
                assert forall|k: int| 0 <= k < i implies read.encoded(
                    #[trigger] read.children(current)[k],
                ) == normal(node@.children[k]) by {
                    let c = before.children(current)[k];
                    before.lemma_child(current, k);
                    before.lemma_unchanged_frame(read, c);
                }
                assert(read.at(current) == before.at(current));
                assert(!read.ancestor_or_self(child, current));
            }
            current.insert_bottom(arena, child);
            proof {
                let done = arena@;
                read.lemma_attach_frame(current, i as int, child);
                assert(done.children(current)[i as int] == child);
                assert forall|k: int| 0 <= k < i + 1 implies done.encoded(
                    #[trigger] done.children(current)[k],
                ) == normal(node@.children[k]) && done.children(current)[k].id >= old(arena)@.len() by {
                    let c = done.children(current)[k];
                    if k < i {
                        assert(c == read.children(current)[k]);
                        read.lemma_child(current, k);
                        read.lemma_parent_holds(c);
                    }
                    assert(!read.ancestor_or_self(c, current));
                    assert forall|x: Node|
                        read.contains(x) && read.ancestor_or_self(c, x) implies #[trigger] read.same_payload(
                        done,
                        x,
                    ) by {
                        let _ = done.at(x);
                    }
                    read.lemma_encoded_frame(done, c);
                }
                assert forall|x: Node| old(arena)@.contains(x) implies done.at(x) == old(arena)@.at(x) by {
                    assert(read.at(x) == old(arena)@.at(x));
                    assert(x != current && x != child);
                    if i > 0 {
                        assert(read.children(current)[i - 1].id >= old(arena)@.len());
                    }
                }
            }
            i = i + 1;
        }
        proof {
            node.lemma_view();
            lemma_normal(node@);
            arena@.lemma_encoded_from(current, 0);
            let v = arena@.encoded(current);
            let w = normal(node@);
            assert(v.contents =~= w.contents);
            assert(v.children =~= w.children);
        }
        current
    }

    /// The children of the node, first to last.
    pub fn children(&self, arena: &Arena) -> (r: Children)
        requires
            arena@.contains(*self),
        ensures
            r@ == arena@.children(*self),
    {
        let kids = &arena.nodes[self.id].children;
        let mut nodes: Vec<Node> = Vec::new();
        let mut i: usize = 0;
        while i < kids.len()
            invariant
                i <= kids.len(),
                nodes@ == kids@.take(i as int),
            decreases kids.len() - i,
        {
            nodes.push(kids[i]);
            i = i + 1;
            proof {
                assert(kids@.take(i as int) =~= kids@.take(i - 1).push(kids@[i - 1]));
            }
        }
        proof {
            assert(kids@.take(i as int) =~= kids@);
        }
        Children { nodes }
    }
}

/// What [`Node::set_data`] answers for a node that carries `current` when it
/// is given `new`.
///
/// A node without data takes any data that is not empty. A link gives way to
/// another link. A file is never replaced, and a link and a file never
/// replace each other.
pub open spec fn set_data_outcome(current: Option<DataState>, new: DataState) -> Result<
    (),
    NodeError,
> {
    match (current, new) {
        (None, DataState::Link(link)) => if link.len() == 0 {
            Err(NodeError::NoData)
        } else {
            Ok(())
        },
        (None, DataState::File(path)) => if path.len() == 0 {
            Err(NodeError::NoData)
        } else {
            Ok(())
        },
        (Some(DataState::Link(_)), DataState::Link(_)) => Ok(()),
        (Some(DataState::File(_)), DataState::File(_)) => Err(NodeError::FileDataAlreadyExists),
        _ => Err(NodeError::MismatchDataType),
    }
}

/// The children of a node as they were when they were asked for.
#[derive(Debug)]
pub struct Children {
    nodes: Vec<Node>,
}

impl View for Children {
    type V = Seq<Node>;

    closed spec fn view(&self) -> Seq<Node> {
        self.nodes@
    }
}

impl Children {
    /// All the children, first to last.
    pub fn into_iter(&self) -> (r: Vec<Node>)
        ensures
            r@ == self@,
    {
        copy_nodes(&self.nodes, self.nodes.len())
    }

    /// All the children but the last. There must be one at least.
    pub fn all_except_last(&self) -> (r: Vec<Node>)
        requires
            self@.len() > 0,
        ensures
            r@ == self@.drop_last(),
    {
        copy_nodes(&self.nodes, self.nodes.len() - 1)
    }

    /// The first child, if there is any.
    pub fn first(&self) -> (r: Option<Node>)
        ensures
            r == if self@.len() > 0 {
                Some(self@[0])
            } else {
                None
            },
    {
        if self.nodes.len() > 0 {
            Some(self.nodes[0])
        } else {
            None
        }
    }

    /// The last child, if there is any.
    pub fn last(&self) -> (r: Option<Node>)
        ensures
            r == if self@.len() > 0 {
                Some(self@.last())
            } else {
                None
            },
    {
        let n: usize = self.nodes.len();
        if n > 0 {
            Some(self.nodes[n - 1])
        } else {
            None
        }
    }
}

/// The first `n` handles of `nodes`.
fn copy_nodes(nodes: &Vec<Node>, n: usize) -> (r: Vec<Node>)
    requires
        n <= nodes@.len(),
    ensures
        r@ == nodes@.take(n as int),
{
    let mut r: Vec<Node> = Vec::new();
    let mut i: usize = 0;
    while i < n
        invariant
            i <= n <= nodes@.len(),
            r@ == nodes@.take(i as int),
        decreases n - i,
    {
        r.push(nodes[i]);
        i = i + 1;
        proof {
            assert(nodes@.take(i as int) =~= nodes@.take(i - 1).push(nodes@[i - 1]));
        }
    }
    r
}

/// Which nodes a listing keeps, by the data they carry.
#[derive(Clone, Copy, Debug, PartialEq, Eq, Structural)]
pub enum NodeFilter {
    /// Every node.
    Always,
    /// The nodes with data.
    FileOrLink,
    /// The nodes with a file.
    FileOnly,
    /// The nodes with a link.
    LinkOnly,
}

impl Default for NodeFilter {
    fn default() -> (r: NodeFilter)
        ensures
            r == NodeFilter::Always,
    {
        NodeFilter::Always
    }
}

impl NodeFilter {
    /// The filter for the two switches "files" and "links": with both, any
    /// data; with neither, every node.
    pub fn new(file: bool, uri: bool) -> (r: NodeFilter)
        ensures
            r == match (file, uri) {
                (true, true) => NodeFilter::FileOrLink,
                (true, false) => NodeFilter::FileOnly,
                (false, true) => NodeFilter::LinkOnly,
                (false, false) => NodeFilter::Always,
            },
    {
        match (file, uri) {
            (true, true) => NodeFilter::FileOrLink,
            (true, false) => NodeFilter::FileOnly,
            (false, true) => NodeFilter::LinkOnly,
            (false, false) => NodeFilter::Always,
        }
    }

    /// Whether the filter keeps a node that carries `data`.
    pub open spec fn admits(self, data: Option<DataState>) -> bool {
        match self {
            NodeFilter::Always => true,
            NodeFilter::FileOrLink => data is Some,
            NodeFilter::FileOnly => data matches Some(DataState::File(_)),
            NodeFilter::LinkOnly => data matches Some(DataState::Link(_)),
        }
    }

    /// Whether the filter keeps `node`, by the data it carries now.
    pub fn accepts(&self, arena: &Arena, node: &Node) -> (r: bool)
        requires
            arena@.contains(*node),
        ensures
            r == self.admits(arena@.data(*node)),
    {
        match self {
            NodeFilter::Always => true,
            NodeFilter::FileOrLink => arena.nodes[node.id].data.is_some(),
            NodeFilter::FileOnly => match &arena.nodes[node.id].data {
                Some(NodeData::File(_)) => true,
                _ => false,
            },
            NodeFilter::LinkOnly => match &arena.nodes[node.id].data {
                Some(NodeData::Link(_)) => true,
                _ => false,
            },
        }
    }
}

} // verus!
