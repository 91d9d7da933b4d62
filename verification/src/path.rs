//! Paths as text: segments between slashes.

use vstd::prelude::*;
use crate::text::{blank, is_blank};

verus! {

/// The number of characters of `s` before its first slash.
pub open spec fn first_slash(s: Seq<char>) -> int
    decreases s.len(),
{
    if s.len() == 0 || s[0] == '/' {
        0
    } else {
        1 + first_slash(s.drop_first())
    }
}

/// The segments of the path `s`: the pieces between its slashes that hold
/// more than white space, in order and as they are written.
pub open spec fn segments(s: Seq<char>) -> Seq<Seq<char>>
    decreases s.len(),
{
    if s.len() == 0 {
        Seq::empty()
    } else {
        let k = first_slash(s);
        let head = s.take(k);
        let own = if is_blank(head) {
            Seq::empty()
        } else {
            seq![head]
        };
        if 0 <= k < s.len() {
            own + segments(s.skip(k + 1))
        } else {
            own
        }
    }
}

/// The first slash stands where no slash comes before.
pub proof fn lemma_first_slash(s: Seq<char>, k: int)
    requires
        0 <= k <= s.len(),
        forall|j: int| 0 <= j < k ==> s[j] != '/',
        k == s.len() || s[k] == '/',
    ensures
        first_slash(s) == k,
    decreases s.len(),
{
    if k > 0 {
        let t = s.drop_first();
        assert forall|j: int| 0 <= j < k - 1 implies t[j] != '/' by {
            assert(t[j] == s[j + 1]);
        }
        lemma_first_slash(t, k - 1);
    }
}

/// Split a path such as `/a/b c/d` into its segments.
///
/// A piece that is empty or holds only white space is no segment, so a
/// slash at either end and slashes in a row count for nothing.
pub fn path_iter<'a>(path: &'a str) -> (r: Vec<&'a str>)
    ensures
        r.deep_view() == segments(path@),
{
    let n: usize = path.unicode_len();
    let mut out: Vec<&'a str> = Vec::new();
    let mut start: usize = 0;
    proof {
        assert(path@.skip(0) =~= path@);
        assert(out.deep_view() =~= Seq::<Seq<char>>::empty());
    }
    while start < n
        invariant
            n == path@.len(),
            start <= n,
            segments(path@) == out.deep_view() + segments(path@.skip(start as int)),
        decreases n - start,
    {
        let mut end: usize = start;
        while end < n && path.get_char(end) != '/'
            invariant
                n == path@.len(),
                start <= end <= n,
                forall|j: int| start <= j < end ==> path@[j] != '/',
            decreases n - end,
        {
            end = end + 1;
        }
        let piece: &'a str = path.substring_char(start, end);
        let ghost rest = path@.skip(start as int);
        let ghost so_far = out.deep_view();
        proof {
            assert forall|j: int| 0 <= j < end - start implies rest[j] != '/' by {
                assert(rest[j] == path@[start + j]);
            }
            lemma_first_slash(rest, end - start);
            assert(rest.take(end - start) =~= piece@);
        }
        if !blank(piece) {
            out.push(piece);
            proof {
                assert(out.deep_view() =~= so_far + seq![piece@]);
            }
        }
        if end < n {
            proof {
                assert(rest.skip(end - start + 1) =~= path@.skip(end + 1));
                let own = if is_blank(piece@) {
                    Seq::<Seq<char>>::empty()
                } else {
                    seq![piece@]
                };
                assert(so_far + (own + segments(path@.skip(end + 1))) =~= (so_far + own)
                    + segments(path@.skip(end + 1)));
            }
            start = end + 1;
        } else {
            proof {
                let own = if is_blank(piece@) {
                    Seq::<Seq<char>>::empty()
                } else {
                    seq![piece@]
                };
                assert(path@.skip(n as int) =~= Seq::<char>::empty());
                assert(so_far + own =~= (so_far + own) + Seq::<Seq<char>>::empty());
            }
            start = n;
        }
    }
    proof {
        assert(path@.skip(n as int) =~= Seq::<char>::empty());
        assert(out.deep_view() + Seq::<Seq<char>>::empty() =~= out.deep_view());
    }
    out
}

} // verus!
