//! The guides that a listing draws before a node to show how deep it lies.

use vstd::prelude::*;
use crate::text::push_char;

verus! {

/// How deep a listing has come, and for each level above whether the guide
/// of that level goes on below.
#[derive(Debug, PartialEq, Eq)]
pub struct Indent {
    depth: usize,
    signs: Vec<char>,
}

impl View for Indent {
    type V = Seq<char>;

    /// The signs of the levels, outermost first.
    closed spec fn view(&self) -> Seq<char> {
        self.signs@
    }
}

/// The guides before a node under the levels `signs`: for each level but
/// the innermost its sign and a space, then a corner if the node is the
/// last child of its parent, else a bar, and a space.
pub open spec fn guides(signs: Seq<char>, is_last: bool) -> Seq<char>
    decreases signs.len(),
{
    if signs.len() == 0 {
        Seq::empty()
    } else if signs.len() == 1 {
        if is_last {
            seq!['└', ' ']
        } else {
            seq!['│', ' ']
        }
    } else {
        seq![signs[0], ' '] + guides(signs.drop_first(), is_last)
    }
}

impl Default for Indent {
    fn default() -> (r: Indent)
        ensures
            r.wf(),
            r@ == Seq::<char>::empty(),
    {
        Indent::new()
    }
}

impl Indent {
    /// There is one sign for each level.
    pub closed spec fn wf(&self) -> bool {
        self.depth == self.signs@.len()
    }

    /// The indent of the root: no level.
    pub fn new() -> (r: Indent)
        ensures
            r.wf(),
            r@ == Seq::<char>::empty(),
    {
        Indent { depth: 0, signs: Vec::new() }
    }

    /// The indent one level deeper: below a last child the new level shows
    /// nothing, below any other child a bar.
    pub fn deeper(&self, is_last: bool) -> (r: Indent)
        requires
            self.wf(),
        ensures
            r.wf(),
            r@ == self@.push(
                if is_last {
                    ' '
                } else {
                    '│'
                },
            ),
    {
        let sign: char = if is_last {
            ' '
        } else {
            '│'
        };
        let mut signs: Vec<char> = Vec::new();
        let mut i: usize = 0;
        while i < self.signs.len()
            invariant
                i <= self.signs.len(),
                signs@ == self.signs@.take(i as int),
            decreases self.signs.len() - i,
        {
            signs.push(self.signs[i]);
            i = i + 1;
            proof {
                assert(self.signs@.take(i as int) =~= self.signs@.take(i - 1).push(
                    self.signs@[i - 1],
                ));
            }
        }
        proof {
            assert(self.signs@.take(i as int) =~= self.signs@);
        }
        signs.push(sign);
        let depth: usize = signs.len();
        Indent { depth, signs }
    }

    /// The text to show before a node at this indent.
    pub fn to_indent_guides(&self, is_last: bool) -> (r: String)
        requires
            self.wf(),
        ensures
            r@ == guides(self@, is_last),
    {
        let mut prefix = String::new();
        if self.depth == 0 {
            return prefix;
        }
        let n: usize = self.signs.len() - 1;
        let mut i: usize = 0;
        proof {
            assert(self.signs@.skip(0) =~= self.signs@);
        }
        while i < n
            invariant
                i <= n,
                n + 1 == self.signs@.len(),
                prefix@ + guides(self.signs@.skip(i as int), is_last) == guides(
                    self.signs@,
                    is_last,
                ),
            decreases n - i,
        {
            let ghost before = prefix@;
            let ghost rest = self.signs@.skip(i as int);
            push_char(&mut prefix, self.signs[i]);
            push_char(&mut prefix, ' ');
            proof {
                assert(rest.drop_first() =~= self.signs@.skip(i + 1));
                assert(prefix@ =~= before + seq![rest[0], ' ']);
                assert(before + (seq![rest[0], ' '] + guides(rest.drop_first(), is_last)) =~= (
                before + seq![rest[0], ' ']) + guides(rest.drop_first(), is_last));
            }
            i = i + 1;
        }
        let ghost before = prefix@;
        if is_last {
            push_char(&mut prefix, '└');
        } else {
            push_char(&mut prefix, '│');
        }
        push_char(&mut prefix, ' ');
        proof {
            let last = self.signs@.skip(n as int);
            assert(last.len() == 1);
            assert(prefix@ =~= before + guides(last, is_last));
        }
        prefix
    }
}

} // verus!
