//! A tree as a plain value: every node owns its children.
//!
//! Such a tree is looked up by row or by path without any store. A node is
//! reached by reference, and nothing is shared.

use vstd::prelude::*;

verus! {

/// The version of the format that a tree follows.
#[derive(Clone, Copy, Debug, PartialEq, Eq, PartialOrd, Ord, Structural)]
pub struct Version(pub u16);

impl Default for Version {
    fn default() -> (r: Version)
        ensures
            r == Version(1),
    {
        Version(1)
    }
}

/// One entry of the contents of a node.
#[derive(Debug, PartialEq, Eq)]
pub struct Text {
    pub text: String,
}

impl Clone for Text {
    fn clone(&self) -> (r: Self)
        ensures
            r == *self,
    {
        Text { text: self.text.clone() }
    }
}

/// A node that owns its children.
#[derive(Debug, PartialEq, Eq)]
pub struct Node {
    /// The icon of the node.
    pub icon: String,
    /// Whether the node shows its children.
    pub is_expanded: bool,
    /// The texts of the node: the first one is the name it is found by, the
    /// last one is the name it is given.
    pub contents: Vec<Text>,
    /// The children of the node, first to last.
    pub children: Vec<Node>,
}

/// A node with a version and a kind.
#[derive(Debug, PartialEq, Eq)]
pub struct Tree {
    /// The version of the format.
    pub version: Version,
    /// The kind of tree, as a number.
    pub ty: u8,
    /// The root.
    pub node: Node,
}

impl Node {
    /// The rows that this node and what it holds take in a listing: the
    /// node itself, then, if it is expanded, the rows of each child in
    /// order.
    pub open spec fn rows(&self) -> Seq<Node>
        decreases self, self.children@.len() + 1,
    {
        seq![*self] + if self.is_expanded {
            self.rows_from(0)
        } else {
            Seq::empty()
        }
    }

    /// The rows of the children from the `i`-th on.
    pub open spec fn rows_from(&self, i: int) -> Seq<Node>
        decreases self, self.children@.len() - i,
    {
        if 0 <= i < self.children@.len() {
            self.children@[i].rows() + self.rows_from(i + 1)
        } else {
            Seq::empty()
        }
    }

    /// Whether the first text of this node is `name`.
    pub open spec fn is_named(&self, name: Seq<char>) -> bool {
        self.contents@.len() > 0 && self.contents@[0].text@ == name
    }

    /// The first child, from the `i`-th on, whose first text is `name`.
    pub open spec fn find_child_from(&self, name: Seq<char>, i: int) -> Option<Node>
        decreases self.children@.len() - i,
    {
        if i < 0 || i >= self.children@.len() {
            None
        } else if self.children@[i].is_named(name) {
            Some(self.children@[i])
        } else {
            self.find_child_from(name, i + 1)
        }
    }

    /// The node at the end of `path`, walked from this node: each step goes
    /// to the first child whose first text is the segment.
    pub open spec fn find(&self, path: Seq<Seq<char>>) -> Option<Node>
        decreases path.len(),
    {
        if path.len() == 0 {
            Some(*self)
        } else {
            match self.find_child_from(path[0], 0) {
                Some(c) => c.find(path.drop_first()),
                None => None,
            }
        }
    }

    /// A node with the one text `text` and the given children, without an
    /// icon.
    pub fn new_by_expand_state(text: &str, is_expanded: bool, children: Vec<Node>) -> (r: Node)
        ensures
            r.icon@ == Seq::<char>::empty(),
            r.is_expanded == is_expanded,
            r.contents@.len() == 1,
            r.contents@[0].text@ == text@,
            r.children == children,
    {
        let mut contents: Vec<Text> = Vec::new();
        contents.push(Text { text: text.to_owned() });
        Node { icon: String::new(), is_expanded, contents, children }
    }

    /// Replace the last text by `name`, or add `name` when there is no
    /// text. The text that was replaced comes back, or the empty text.
    pub fn set_name(&mut self, name: &str) -> (prev: String)
        ensures
            final(self).icon == old(self).icon,
            final(self).is_expanded == old(self).is_expanded,
            final(self).children == old(self).children,
            final(self).contents@.len() > 0,
            final(self).contents@.last().text@ == name@,
            final(self).contents@.drop_last() == (if old(self).contents@.len() > 0 {
                old(self).contents@.drop_last()
            } else {
                old(self).contents@
            }),
            prev@ == (if old(self).contents@.len() > 0 {
                old(self).contents@.last().text@
            } else {
                Seq::<char>::empty()
            }),
    {
        let prev = match self.contents.pop() {
            Some(text) => text.text,
            None => String::new(),
        };
        let ghost kept = self.contents@;
        self.contents.push(Text { text: name.to_owned() });
        proof {
            assert(self.contents@.drop_last() =~= kept);
            if old(self).contents@.len() > 0 {
                assert(kept =~= old(self).contents@.drop_last());
            }
        }
        prev
    }

    /// The node on row `line` of the listing of this node, counted from 0;
    /// with it, what is left of `line` once the rows of this node are taken
    /// off.
    pub fn get_node_by_line_nb(&self, line: usize) -> (r: (usize, Option<&Node>))
        ensures
            line < self.rows().len() ==> r.0 == 0 && r.1 is Some && *(r.1->0)
                == self.rows()[line as int],
            line >= self.rows().len() ==> r.0 == line - self.rows().len() && r.1 is None,
        decreases self,
    {
        if line == 0 {
            return (0, Some(self));
        }
        let ghost whole = self.rows();
        // step over this node
        let mut left: usize = line - 1;
        if !self.is_expanded || self.children.len() == 0 {
            proof {
                if self.is_expanded {
                    assert(self.rows_from(0) =~= Seq::<Node>::empty());
                }
            }
            return (left, None);
        }
        let ghost below = self.rows_from(0);
        let ghost wanted = left as int;
        let ghost mut passed: Seq<Node> = Seq::empty();
        let mut i: usize = 0;
        proof {
            assert(passed + self.rows_from(0) =~= below);
        }
        while i < self.children.len()
            invariant
                i <= self.children.len(),
                whole == self.rows(),
                whole == seq![*self] + below,
                below == passed + self.rows_from(i as int),
                wanted + 1 == line,
                left == wanted - passed.len(),
            decreases self.children.len() - i,
        {
            let child = &self.children[i];
            let (rest, found) = child.get_node_by_line_nb(left);
            if found.is_some() {
                proof {
                    assert(below[wanted] == child.rows()[left as int]);
                    assert(whole[wanted + 1] == below[wanted]);
                }
                return (rest, found);
            }
            proof {
                assert(passed + child.rows() + self.rows_from(i + 1) =~= passed + self.rows_from(
                    i as int,
                ));
                passed = passed + child.rows();
            }
            left = rest;
            i = i + 1;
        }
        proof {
            assert(self.rows_from(i as int) =~= Seq::<Node>::empty());
            assert(below =~= passed);
        }
        (left, None)
    }

    /// The node at the end of `path`, walked from this node.
    pub fn get_node_by_path(&self, path: &[&str]) -> (r: Option<&Node>)
        ensures
            match self.find(path.deep_view()) {
                Some(n) => r is Some && *(r->0) == n,
                None => r is None,
            },
    {
        let ghost segments = path.deep_view();
        let mut current: &Node = self;
        let mut i: usize = 0;
        proof {
            assert(segments.skip(0) =~= segments);
        }
        while i < path.len()
            invariant
                i <= path.len(),
                segments == path.deep_view(),
                self.find(segments) == current.find(segments.skip(i as int)),
            decreases path.len() - i,
        {
            let wanted: String = path[i].to_owned();
            proof {
                let rest = segments.skip(i as int);
                assert(rest[0] == wanted@);
                assert(rest.drop_first() =~= segments.skip(i + 1));
            }
            let mut found: Option<&Node> = None;
            let mut j: usize = 0;
            while j < current.children.len() && found.is_none()
                invariant
                    j <= current.children.len(),
                    match found {
                        Some(c) => current.find_child_from(wanted@, 0) == Some(*c),
                        None => current.find_child_from(wanted@, 0) == current.find_child_from(
                            wanted@,
                            j as int,
                        ),
                    },
                decreases current.children.len() - j + (if found is None { 1int } else { 0int }),
            {
                let child = &current.children[j];
                if child.contents.len() > 0 && child.contents[0].text == wanted {
                    found = Some(child);
                } else {
                    j = j + 1;
                }
            }
            match found {
                Some(child) => {
                    current = child;
                },
                None => {
                    return None;
                },
            }
            i = i + 1;
        }
        proof {
            assert(segments.skip(i as int) =~= Seq::<Seq<char>>::empty());
        }
        Some(current)
    }
}

impl Tree {
    /// The node on row `line` of the listing of the tree, counted from 0;
    /// `None` past the last row.
    pub fn get_node_by_line_nb(&self, line: usize) -> (r: Option<&Node>)
        ensures
            line < self.node.rows().len() ==> r is Some && *(r->0) == self.node.rows()[line as int],
            line >= self.node.rows().len() ==> r is None,
    {
        let (_, node) = self.node.get_node_by_line_nb(line);
        node
    }

    /// The node at the end of `path`, walked from the root.
    pub fn get_node_by_path(&self, path: &[&str]) -> (r: Option<&Node>)
        ensures
            match self.node.find(path.deep_view()) {
                Some(n) => r is Some && *(r->0) == n,
                None => r is None,
            },
    {
        self.node.get_node_by_path(path)
    }
}

} // verus!
