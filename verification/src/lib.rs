//! A tree of thoughts: named nodes with an icon, an expansion flag and
//! optional data, kept in a store and reached by handle, by row or by path.
//!
//! The nodes of a tree live in an [`node::Arena`]; a [`node::Node`] is a
//! handle into it. What the store holds is modelled by a [`graph::Graph`],
//! and every operation states over that model what it changes. The store is
//! always well formed ([`graph::Graph::wf`]): a child stands exactly once
//! among the children of its parent, the sibling links follow the order of
//! the children, and no node stands above itself.
//!
//! - [`graph`], [`links`], [`walk`], [`codec`], [`listing`], [`laws`]: the
//!   model, its traversals, and what is proved of them.
//! - [`node`], [`tree`], [`cursor`], [`path`], [`ops`], [`session`]: nodes,
//!   trees, cursors, paths, and the changes that go by mode and by row.
//! - [`encoding`]: the documents that trees are written to and read from.
//! - [`forest`], [`data_file`]: the trees of a user, and names for the
//!   files of nodes.
//! - [`event`], [`menu`], [`user_input`], [`cmd_line`], [`indent`],
//!   [`tui_tree`]: the parts of a listing on a terminal, as state machines
//!   over plain keys.
//! - [`plain`]: a tree as a plain value.
//! - [`text`]: trimming and other help with strings.

pub mod text;
pub mod graph;
pub mod links;
pub mod walk;
pub mod encoding;
pub mod codec;
pub mod path;
pub mod node;
pub mod tree;
pub mod cursor;
pub mod laws;
pub mod listing;
pub mod ops;
pub mod session;
pub mod event;
pub mod indent;
pub mod menu;
pub mod user_input;
pub mod cmd_line;
pub mod tui_tree;
pub mod forest;
pub mod data_file;
pub mod plain;
