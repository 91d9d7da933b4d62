//! The form in which trees and nodes are kept outside the program.
//!
//! The values here share nothing: a node owns its children. They are what
//! is written and read back; the store converts to and from them.

use vstd::prelude::*;

verus! {

/// What kind of tree a document holds.
#[derive(Clone, Copy, Debug, PartialEq, Eq, Structural)]
pub enum TreeType {
    /// A root.
    Root,
    /// A local root.
    Local,
}

impl TreeType {
    /// The number that stands for this kind in a document.
    pub open spec fn code_of(self) -> u8 {
        match self {
            TreeType::Root => 0,
            TreeType::Local => 1,
        }
    }

    /// The number that stands for this kind in a document.
    pub fn code(&self) -> (r: u8)
        ensures
            r == self.code_of(),
    {
        match self {
            TreeType::Root => 0,
            TreeType::Local => 1,
        }
    }

    /// The kind that `code` stands for; only 0 and 1 stand for one.
    pub fn from_code(code: u8) -> (r: Option<TreeType>)
        ensures
            r == match code {
                0 => Some(TreeType::Root),
                1 => Some(TreeType::Local),
                _ => None,
            },
            r matches Some(ty) ==> ty.code_of() == code,
    {
        match code {
            0 => Some(TreeType::Root),
            1 => Some(TreeType::Local),
            _ => None,
        }
    }
}

/// The version of the format that a document follows.
#[derive(Clone, Copy, Debug, PartialEq, Eq, PartialOrd, Ord, Structural)]
pub struct Version(pub u16);

impl Version {
    /// The version that this crate writes.
    pub fn current() -> (r: Version)
        ensures
            r == Version(1),
    {
        Version(1)
    }
}

impl Default for Version {
    fn default() -> (r: Version)
        ensures
            r == Version(1),
    {
        Version::current()
    }
}

/// One entry of the contents of a node.
#[derive(Debug, PartialEq, Eq)]
pub struct Text {
    pub text: String,
}

impl Clone for Text {
    fn clone(&self) -> (r: Self)
        ensures
            r == *self,
    {
        Text { text: self.text.clone() }
    }
}

/// A node as it is kept in a document.
#[derive(Debug, PartialEq, Eq)]
pub struct Node {
    /// The icon of the node.
    pub icon: String,
    /// Whether the node shows its children.
    pub is_expanded: bool,
    /// The texts of the node; the last one is its name.
    pub contents: Vec<Text>,
    /// The path of the file of the node, if it has one.
    pub data: Option<String>,
    /// The link of the node, if it has one.
    pub url: Option<String>,
    /// The children of the node, first to last.
    pub children: Vec<Node>,
}

/// The view of a [`Node`].
pub struct NodeView {
    pub icon: Seq<char>,
    pub is_expanded: bool,
    pub contents: Seq<Seq<char>>,
    pub data: Option<Seq<char>>,
    pub url: Option<Seq<char>>,
    pub children: Seq<NodeView>,
}

/// The view of an optional string.
pub open spec fn text_view(s: Option<String>) -> Option<Seq<char>> {
    match s {
        Some(s) => Some(s@),
        None => None,
    }
}

impl View for Node {
    type V = NodeView;

    open spec fn view(&self) -> NodeView
        decreases self,
    {
        NodeView {
            icon: self.icon@,
            is_expanded: self.is_expanded,
            contents: Seq::new(self.contents@.len(), |i: int| self.contents@[i].text@),
            data: text_view(self.data),
            url: text_view(self.url),
            children: Seq::new(
                self.children@.len(),
                |i: int|
                    if 0 <= i < self.children@.len() {
                        self.children@[i].view()
                    } else {
                        arbitrary()
                    },
            ),
        }
    }
}

/// A copy of an optional string.
fn copy_text(s: &Option<String>) -> (r: Option<String>)
    ensures
        r == *s,
{
    match s {
        Some(s) => Some(s.clone()),
        None => None,
    }
}

impl Clone for Node {
    fn clone(&self) -> (r: Self)
        ensures
            r@ == self@,
        decreases self,
    {
        let mut contents: Vec<Text> = Vec::new();
        let mut i: usize = 0;
        while i < self.contents.len()
            invariant
                i <= self.contents.len(),
                contents@ == self.contents@.take(i as int),
            decreases self.contents.len() - i,
        {
            contents.push(self.contents[i].clone());
            i = i + 1;
            proof {
                assert(self.contents@.take(i as int) =~= self.contents@.take(i - 1).push(
                    self.contents@[i - 1],
                ));
            }
        }
        let mut children: Vec<Node> = Vec::new();
        let mut j: usize = 0;
        while j < self.children.len()
            invariant
                j <= self.children.len(),
                children@.len() == j,
                forall|k: int| 0 <= k < j ==> (#[trigger] children@[k])@ == self.children@[k]@,
            decreases self.children.len() - j,
        {
            children.push(self.children[j].clone());
            j = j + 1;
        }
        let r = Node {
            icon: self.icon.clone(),
            is_expanded: self.is_expanded,
            contents,
            data: copy_text(&self.data),
            url: copy_text(&self.url),
            children,
        };
        proof {
            assert(self.contents@.take(i as int) =~= self.contents@);
            assert(r@.contents =~= self@.contents);
            r.lemma_view();
            self.lemma_view();
            assert forall|k: int| 0 <= k < r@.children.len() implies r@.children[k]
                == self@.children[k] by {
                assert(children@[k]@ == self.children@[k]@);
            }
            assert(r@.children =~= self@.children);
        }
        r
    }
}

impl Node {
    /// The view of a node holds the views of its children, in order.
    pub proof fn lemma_view(&self)
        ensures
            self@.icon == self.icon@,
            self@.is_expanded == self.is_expanded,
            self@.contents.len() == self.contents@.len(),
            forall|k: int|
                0 <= k < self.contents@.len() ==> #[trigger] self@.contents[k]
                    == self.contents@[k].text@,
            self@.data == text_view(self.data),
            self@.url == text_view(self.url),
            self@.children.len() == self.children@.len(),
            forall|k: int|
                0 <= k < self.children@.len() ==> #[trigger] self@.children[k]
                    == self.children@[k]@,
    {
        reveal_with_fuel(<Node as View>::view, 2);
    }

    /// A node named `name` with the given children, without icon or data.
    pub fn new_by_expand_state(name: &str, is_expanded: bool, children: Vec<Node>) -> (r: Node)
        ensures
            r.icon@ == Seq::<char>::empty(),
            r.is_expanded == is_expanded,
            r.contents@.len() == 1,
            r.contents@[0].text@ == name@,
            r.data is None,
            r.url is None,
            r.children == children,
            r@.icon == Seq::<char>::empty(),
            r@.is_expanded == is_expanded,
            r@.contents == seq![name@],
            r@.data is None,
            r@.url is None,
    {
        let mut contents: Vec<Text> = Vec::new();
        contents.push(Text { text: name.to_owned() });
        let r = Node { icon: String::new(), is_expanded, contents, data: None, url: None, children };
        proof {
            r.lemma_view();
            assert(r@.contents =~= seq![name@]);
        }
        r
    }
}

/// A tree as it is kept in a document: a node with a version and a kind.
#[derive(Debug, PartialEq, Eq)]
pub struct Tree {
    /// The version of the format.
    pub version: Version,
    /// The kind of tree.
    pub ty: TreeType,
    /// The root.
    pub node: Node,
}

impl Clone for Tree {
    fn clone(&self) -> (r: Self)
        ensures
            r.version == self.version,
            r.ty == self.ty,
            r.node@ == self.node@,
    {
        Tree { version: self.version, ty: self.ty, node: self.node.clone() }
    }
}

} // verus!
