//! A tree: a root node in a store of its own, with a version and a kind.

use vstd::prelude::*;
use crate::codec::{normal, size};
use crate::encoding;
use crate::encoding::{TreeType, Version};
use crate::graph::{Graph, Node};
use crate::node::Arena;
use crate::text::{trim, trim_start};

verus! {

/// A rooted tree of nodes.
///
/// The tree owns the store of its nodes, `nodes`: an operation on a node of
/// the tree takes `&tree.nodes` or `&mut tree.nodes` beside the handle.
#[derive(Debug)]
pub struct Tree {
    /// The version of the format that the tree follows.
    pub version: Version,
    /// The kind of tree.
    pub ty: TreeType,
    /// The root.
    pub node: Node,
    /// The store that holds the root and every other node of the tree.
    pub nodes: Arena,
}

impl Tree {
    /// The store is well formed and holds the root.
    pub open spec fn wf(&self) -> bool {
        &&& self.nodes.wf()
        &&& self.nodes@.contains(self.node)
    }

    /// A tree of the current version and of kind `Root` that holds only its
    /// root, named `name` and with the icon `icon`.
    pub fn new(name: &str, icon: &str) -> (tree: Tree)
        ensures
            tree.wf(),
            tree.version == Version(1),
            tree.ty == TreeType::Root,
            tree.node == (Node { id: 0 }),
            tree.nodes@ == Graph::empty().with_node(trim(name@), trim_start(icon@)),
    {
        let mut nodes = Arena::new();
        let node = Node::new(&mut nodes, name, icon);
        Tree { version: Version::current(), ty: TreeType::Root, node, nodes }
    }

    /// The tree that the document `tree` describes.
    ///
    /// Its root has no parent and is written as the normal form of the
    /// document's node.
    pub fn from_encoding(tree: encoding::Tree) -> (r: Tree)
        ensures
            r.wf(),
            r.version == tree.version,
            r.ty == tree.ty,
            r.node == (Node { id: 0 }),
            r.nodes@.len() == size(tree.node@),
            r.nodes@.parent(r.node) is None,
            r.nodes@.encoded(r.node) == normal(tree.node@),
    {
        let mut nodes = Arena::new();
        let node = Node::from_encoding(&mut nodes, tree.node);
        Tree { version: tree.version, ty: tree.ty, node, nodes }
    }

    /// The document that describes this tree.
    pub fn into_encoding(&self) -> (r: encoding::Tree)
        requires
            self.wf(),
        ensures
            r.version == self.version,
            r.ty == self.ty,
            r.node@ == self.nodes@.encoded(self.node),
    {
        encoding::Tree {
            version: self.version,
            ty: self.ty,
            node: self.node.into_encoding(&self.nodes),
        }
    }

    /// The root node.
    pub fn root(&self) -> (r: Node)
        ensures
            r == self.node,
    {
        self.node
    }

    /// The node on row `line` of the listing of the tree, counted from 0:
    /// a node takes one row, and what stands below it takes rows only if it
    /// is expanded. `None` past the last row.
    pub fn get_node_by_line(&self, line: usize) -> (r: Option<Node>)
        requires
            self.wf(),
        ensures
            r == if line < self.nodes@.rows(self.node).len() {
                Some(self.nodes@.rows(self.node)[line as int])
            } else {
                None
            },
            r matches Some(n) ==> self.nodes@.contains(n),
            line == 0 ==> r == Some(self.node),
    {
        proof {
            self.nodes@.lemma_rows_first(self.node);
        }
        let (_, node) = self.node.get_node_by_line(&self.nodes, line);
        node
    }

    /// The node at the end of `path`, walked from the root by the names of
    /// children; see [`Graph::walk`].
    pub fn get_node_by_path(&mut self, path: &[&str], auto_create_nodes: bool) -> (r: Option<Node>)
        requires
            old(self).wf(),
        ensures
            final(self).wf(),
            final(self).version == old(self).version,
            final(self).ty == old(self).ty,
            final(self).node == old(self).node,
            (final(self).nodes@, r) == old(self).nodes@.walk(
                old(self).node,
                path.deep_view(),
                auto_create_nodes,
            ),
            r matches Some(n) ==> final(self).nodes@.contains(n),
            !auto_create_nodes ==> final(self).nodes@ == old(self).nodes@,
            auto_create_nodes ==> r is Some,
    {
        let root = self.node;
        root.get_node_by_path(&mut self.nodes, path, auto_create_nodes)
    }
}

} // verus!
