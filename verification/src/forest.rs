//! A forest: a main tree, and one tree for each working directory that has
//! asked for its own.

use vstd::prelude::*;
use crate::tree::Tree;

verus! {

/// A main tree and the trees of working directories, each under the
/// absolute path of its directory.
#[derive(Debug)]
pub struct Forest {
    tree: Tree,
    projects: Vec<(String, Tree)>,
}

impl Forest {
    /// The main tree.
    pub closed spec fn main_view(&self) -> Tree {
        self.tree
    }

    /// The directories that have a tree, in the order in which they were
    /// added.
    pub closed spec fn dirs(&self) -> Seq<Seq<char>> {
        Seq::new(self.projects@.len(), |i: int| self.projects@[i].0@)
    }

    /// The trees of the directories, in the same order.
    pub closed spec fn trees(&self) -> Seq<Tree> {
        Seq::new(self.projects@.len(), |i: int| self.projects@[i].1)
    }

    /// No directory has two trees.
    pub open spec fn wf(&self) -> bool {
        &&& self.dirs().no_duplicates()
        &&& self.dirs().len() == self.trees().len()
    }

    /// The tree of each directory that has one.
    pub open spec fn projects(&self) -> Map<Seq<char>, Tree> {
        Map::new(
            |dir: Seq<char>| self.dirs().contains(dir),
            |dir: Seq<char>| self.trees()[self.dirs().index_of(dir)],
        )
    }

    /// A forest with the main tree `tree` and no other.
    pub fn new(tree: Tree) -> (r: Forest)
        ensures
            r.wf(),
            r.main_view() == tree,
            r.dirs() == Seq::<Seq<char>>::empty(),
            r.trees() == Seq::<Tree>::empty(),
    {
        let r = Forest { tree, projects: Vec::new() };
        proof {
            assert(r.dirs() =~= Seq::<Seq<char>>::empty());
            assert(r.trees() =~= Seq::<Tree>::empty());
        }
        r
    }

    /// The main tree.
    pub fn main_tree(&self) -> (r: &Tree)
        ensures
            *r == self.main_view(),
    {
        &self.tree
    }

    /// The main tree, to change it.
    pub fn main_tree_mut(&mut self) -> (r: &mut Tree)
        ensures
            *r == old(self).main_view(),
            final(self).main_view() == *final(r),
            final(self).dirs() == old(self).dirs(),
            final(self).trees() == old(self).trees(),
    {
        &mut self.tree
    }

    /// The place of `cwd` among the directories.
    fn find(&self, cwd: &str) -> (r: Option<usize>)
        ensures
            match r {
                Some(i) => i < self.dirs().len() && self.dirs()[i as int] == cwd@,
                None => !self.dirs().contains(cwd@),
            },
    {
        let wanted: String = cwd.to_owned();
        let mut i: usize = 0;
        while i < self.projects.len()
            invariant
                i <= self.projects.len(),
                wanted@ == cwd@,
                forall|j: int| 0 <= j < i ==> self.dirs()[j] != cwd@,
            decreases self.projects.len() - i,
        {
            if self.projects[i].0 == wanted {
                return Some(i);
            }
            i = i + 1;
        }
        None
    }

    /// Every directory that has a tree, with its tree, in the order in
    /// which the directories were added.
    pub fn cwd_trees(&self) -> (r: Vec<(&str, &Tree)>)
        ensures
            r@.len() == self.dirs().len(),
            forall|i: int|
                0 <= i < r@.len() ==> (#[trigger] r@[i]).0@ == self.dirs()[i] && *r@[i].1
                    == self.trees()[i],
    {
        let mut out: Vec<(&str, &Tree)> = Vec::new();
        let mut i: usize = 0;
        while i < self.projects.len()
            invariant
                i <= self.projects.len(),
                out@.len() == i,
                forall|j: int|
                    0 <= j < i ==> (#[trigger] out@[j]).0@ == self.dirs()[j] && *out@[j].1
                        == self.trees()[j],
            decreases self.projects.len() - i,
        {
            let entry = &self.projects[i];
            out.push((entry.0.as_str(), &entry.1));
            i = i + 1;
        }
        out
    }

    /// The tree of the directory `cwd`, if it has one.
    pub fn cwd_tree(&self, cwd: &str) -> (r: Option<&Tree>)
        requires
            self.wf(),
        ensures
            match r {
                Some(tree) => self.projects().contains_key(cwd@) && *tree == self.projects()[cwd@],
                None => !self.projects().contains_key(cwd@),
            },
    {
        match self.find(cwd) {
            Some(i) => {
                proof {
                    self.dirs().index_of_first_ensures(cwd@);
                    assert(self.dirs().contains(cwd@));
                    assert(self.dirs().index_of(cwd@) == i);
                }
                Some(&self.projects[i].1)
            },
            None => None,
        }
    }

    /// The tree of the directory `cwd`, to change it, if it has one.
    pub fn cwd_tree_mut(&mut self, cwd: &str) -> (r: Option<&mut Tree>)
        requires
            old(self).wf(),
        ensures
            match r {
                Some(tree) => {
                    &&& old(self).projects().contains_key(cwd@)
                    &&& *tree == old(self).projects()[cwd@]
                    &&& final(self).main_view() == old(self).main_view()
                    &&& final(self).dirs() == old(self).dirs()
                    &&& final(self).trees() == old(self).trees().update(
                        old(self).dirs().index_of(cwd@),
                        *final(tree),
                    )
                },
                None => !old(self).projects().contains_key(cwd@) && *final(self) == *old(self),
            },
    {
        match self.find(cwd) {
            Some(i) => {
                proof {
                    self.dirs().index_of_first_ensures(cwd@);
                    assert(self.dirs().contains(cwd@));
                    assert(self.dirs().index_of(cwd@) == i);
                }
                let entry = &mut self.projects[i];
                Some(&mut entry.1)
            },
            None => None,
        }
    }

    /// Give the directory `cwd` the tree `tree`, in place of the one it
    /// had if it had one.
    pub fn add_cwd_tree(&mut self, cwd: &str, tree: Tree)
        requires
            old(self).wf(),
        ensures
            final(self).wf(),
            final(self).main_view() == old(self).main_view(),
            final(self).projects() == old(self).projects().insert(cwd@, tree),
            old(self).dirs().contains(cwd@) ==> final(self).dirs() == old(self).dirs(),
            !old(self).dirs().contains(cwd@) ==> final(self).dirs() == old(self).dirs().push(cwd@),
    {
        match self.find(cwd) {
            Some(i) => {
                let dir = cwd.to_owned();
                self.projects.set(i, (dir, tree));
                proof {
                    assert(self.dirs() =~= old(self).dirs());
                    assert(self.trees() =~= old(self).trees().update(i as int, tree));
                    assert forall|d: Seq<char>| self.dirs().contains(d) implies self.projects()[d]
                        == old(self).projects().insert(cwd@, tree)[d] by {
                        let k = self.dirs().index_of(d);
                        if d == cwd@ {
                            assert(k == i);
                        } else {
                            assert(k != i);
                        }
                    }
                    assert(self.projects() =~= old(self).projects().insert(cwd@, tree));
                }
            },
            None => {
                self.projects.push((cwd.to_owned(), tree));
                proof {
                    let n = old(self).dirs().len() as int;
                    assert(self.dirs() =~= old(self).dirs().push(cwd@));
                    assert(self.trees() =~= old(self).trees().push(tree));
                    assert forall|d: Seq<char>| self.dirs().contains(d) implies self.projects()[d]
                        == old(self).projects().insert(cwd@, tree)[d] by {
                        let k = self.dirs().index_of(d);
                        if d == cwd@ {
                            assert(self.dirs()[n] == cwd@);
                            assert(k == n);
                        } else {
                            assert(k != n);
                            assert(old(self).dirs()[k] == d);
                            assert(old(self).dirs().index_of(d) == k);
                        }
                    }
                    assert forall|d: Seq<char>|
                        self.dirs().contains(d) <==> old(self).projects().insert(
                            cwd@,
                            tree,
                        ).contains_key(d) by {
                        if self.dirs().contains(d) {
                            let k = self.dirs().index_of(d);
                            if k < n {
                                assert(old(self).dirs()[k] == d);
                            }
                        }
                        if old(self).dirs().contains(d) {
                            let k = old(self).dirs().index_of(d);
                            assert(self.dirs()[k] == d);
                        }
                        if d == cwd@ {
                            assert(self.dirs()[n] == cwd@);
                        }
                    }
                    assert(self.projects() =~= old(self).projects().insert(cwd@, tree));
                }
            },
        }
    }
}

} // verus!
