//! Character and string helpers shared by the rest of the crate.
//!
//! Every contract here speaks of a string through its view, the sequence of
//! its characters.

use vstd::prelude::*;

verus! {

/// Whether `c` carries the Unicode `White_Space` property.
pub uninterp spec fn is_whitespace(c: char) -> bool;

/// `char::is_whitespace`: the answer is the `White_Space` property of `c`,
/// which this crate leaves uninterpreted.
#[verifier::external_body]
pub(crate) fn char_is_whitespace(c: char) -> (r: bool)
    ensures
        r == is_whitespace(c),
{
    c.is_whitespace()
}

/// `String::push`: the character is appended at the end.
#[verifier::external_body]
pub(crate) fn push_char(s: &mut String, c: char)
    ensures
        final(s)@ == old(s)@.push(c),
{
    s.push(c)
}

/// `s` without its leading white space.
pub open spec fn trim_start(s: Seq<char>) -> Seq<char>
    decreases s.len(),
{
    if s.len() > 0 && is_whitespace(s[0]) {
        trim_start(s.drop_first())
    } else {
        s
    }
}

/// `s` without its trailing white space.
pub open spec fn trim_end(s: Seq<char>) -> Seq<char>
    decreases s.len(),
{
    if s.len() > 0 && is_whitespace(s.last()) {
        trim_end(s.drop_last())
    } else {
        s
    }
}

/// `s` without its leading and trailing white space.
pub open spec fn trim(s: Seq<char>) -> Seq<char> {
    trim_end(trim_start(s))
}

/// Whether every character of `s` is white space.
pub open spec fn is_blank(s: Seq<char>) -> bool {
    forall|i: int| 0 <= i < s.len() ==> is_whitespace(#[trigger] s[i])
}

/// Trimming at the start removes exactly the longest white prefix.
pub proof fn lemma_trim_start_at(s: Seq<char>, i: int)
    requires
        0 <= i <= s.len(),
        forall|k: int| 0 <= k < i ==> is_whitespace(#[trigger] s[k]),
        i == s.len() || !is_whitespace(s[i]),
    ensures
        trim_start(s) == s.subrange(i, s.len() as int),
    decreases i,
{
    if i == 0 {
        assert(s.subrange(0, s.len() as int) =~= s);
    } else {
        let t = s.drop_first();
        assert forall|k: int| 0 <= k < i - 1 implies is_whitespace(#[trigger] t[k]) by {
            assert(t[k] == s[k + 1]);
        }
        lemma_trim_start_at(t, i - 1);
        assert(t.subrange(i - 1, t.len() as int) =~= s.subrange(i, s.len() as int));
    }
}

/// Trimming at the end removes exactly the longest white suffix.
pub proof fn lemma_trim_end_at(s: Seq<char>, j: int)
    requires
        0 <= j <= s.len(),
        forall|k: int| j <= k < s.len() ==> is_whitespace(#[trigger] s[k]),
        j == 0 || !is_whitespace(s[j - 1]),
    ensures
        trim_end(s) == s.subrange(0, j),
    decreases s.len() - j,
{
    if j == s.len() {
        assert(s.subrange(0, j) =~= s);
    } else {
        let t = s.drop_last();
        assert forall|k: int| j <= k < t.len() implies is_whitespace(#[trigger] t[k]) by {
            assert(t[k] == s[k]);
        }
        lemma_trim_end_at(t, j);
        assert(t.subrange(0, j) =~= s.subrange(0, j));
    }
}

/// A string with no white space at its start is its own left trim.
pub proof fn lemma_trim_start_fixed(s: Seq<char>)
    ensures
        trim_start(trim_start(s)) == trim_start(s),
        trim_start(s).len() <= s.len(),
        trim_start(s).len() > 0 ==> !is_whitespace(trim_start(s)[0]),
    decreases s.len(),
{
    if s.len() > 0 && is_whitespace(s[0]) {
        lemma_trim_start_fixed(s.drop_first());
    }
}

/// A string with no white space at its end is its own right trim.
pub proof fn lemma_trim_end_fixed(s: Seq<char>)
    ensures
        trim_end(trim_end(s)) == trim_end(s),
        trim_end(s).len() <= s.len(),
        trim_end(s).len() > 0 ==> !is_whitespace(trim_end(s).last()),
        trim_end(s).len() > 0 ==> trim_end(s)[0] == s[0],
    decreases s.len(),
{
    if s.len() > 0 && is_whitespace(s.last()) {
        lemma_trim_end_fixed(s.drop_last());
    }
}

/// Trimming twice is trimming once, on either side and on both.
pub proof fn lemma_trim_idempotent(s: Seq<char>)
    ensures
        trim(trim(s)) == trim(s),
        trim_start(trim(s)) == trim(s),
{
    let a = trim_start(s);
    let b = trim_end(a);
    lemma_trim_start_fixed(s);
    lemma_trim_end_fixed(a);
    if b.len() > 0 {
        assert(!is_whitespace(b[0]));
        assert(trim_start(b) == b);
    } else {
        assert(trim_start(b) == b);
    }
}

/// The index of the first character of `s` at or after `from` that is not
/// white space, or the length of `s` when there is none.
fn skip_whitespace(s: &str, from: usize) -> (i: usize)
    requires
        from <= s@.len(),
    ensures
        from <= i <= s@.len(),
        forall|k: int| from <= k < i ==> is_whitespace(#[trigger] s@[k]),
        i == s@.len() || !is_whitespace(s@[i as int]),
{
    let n: usize = s.unicode_len();
    let mut i: usize = from;
    while i < n && char_is_whitespace(s.get_char(i))
        invariant
            n == s@.len(),
            from <= i <= n,
            forall|k: int| from <= k < i ==> is_whitespace(#[trigger] s@[k]),
        decreases n - i,
    {
        i = i + 1;
    }
    i
}

/// The end of the last character of `s` before `to` and at or after `low`
/// that is not white space, or `low` when there is none.
fn skip_whitespace_back(s: &str, low: usize, to: usize) -> (j: usize)
    requires
        low <= to <= s@.len(),
    ensures
        low <= j <= to,
        forall|k: int| j <= k < to ==> is_whitespace(#[trigger] s@[k]),
        j == low || !is_whitespace(s@[j - 1]),
{
    let mut j: usize = to;
    while j > low && char_is_whitespace(s.get_char(j - 1))
        invariant
            low <= j <= to,
            to <= s@.len(),
            forall|k: int| j <= k < to ==> is_whitespace(#[trigger] s@[k]),
        decreases j,
    {
        j = j - 1;
    }
    j
}

/// A copy of `s` without its leading white space.
pub fn trimmed_start(s: &str) -> (r: String)
    ensures
        r@ == trim_start(s@),
{
    let n: usize = s.unicode_len();
    let i: usize = skip_whitespace(s, 0);
    proof {
        lemma_trim_start_at(s@, i as int);
    }
    s.substring_char(i, n).to_owned()
}

/// A copy of `s` without its leading and trailing white space.
pub fn trimmed(s: &str) -> (r: String)
    ensures
        r@ == trim(s@),
{
    let n: usize = s.unicode_len();
    let i: usize = skip_whitespace(s, 0);
    let j: usize = skip_whitespace_back(s, i, n);
    proof {
        lemma_trim_start_at(s@, i as int);
        let a = s@.subrange(i as int, n as int);
        assert forall|k: int| j - i <= k < a.len() implies is_whitespace(#[trigger] a[k]) by {
            assert(a[k] == s@[k + i]);
        }
        if j > i {
            assert(a[j - i - 1] == s@[j - 1]);
        }
        lemma_trim_end_at(a, j - i);
        assert(a.subrange(0, j - i) =~= s@.subrange(i as int, j as int));
    }
    s.substring_char(i, j).to_owned()
}

/// Whether `a` and `b` hold the same characters.
pub fn same_text(a: &str, b: &str) -> (r: bool)
    ensures
        r == (a@ == b@),
{
    a.to_owned() == b.to_owned()
}

/// Whether `s` holds nothing but white space.
pub fn blank(s: &str) -> (r: bool)
    ensures
        r == is_blank(s@),
{
    let i: usize = skip_whitespace(s, 0);
    i == s.unicode_len()
}

} // verus!
