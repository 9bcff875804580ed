//! The shape of a name in normal form, as far as its separators go, and the
//! default category that a name in normal form never spells out.

use crate::text::to_chars;
use vstd::prelude::*;

verus! {

/// The prefix that files a page under the default category explicitly.
pub const DEFAULT_CATEGORY: &'static str = "_default:";

/// One of the three separators `-`, `:` and `_`.
pub open spec fn is_separator(c: char) -> bool {
    c == '-' || c == ':' || c == '_'
}

/// `b` may directly follow `a`: a `_` follows only a `:`, a `-` follows no
/// separator, and a `:` follows neither a `-` nor a `:`. This leaves out
/// `--`, `::`, `:-`, `-:`, `_-`, `-_` and every `_` inside a word.
pub open spec fn pair_ok(a: char, b: char) -> bool {
    &&& b == '_' ==> a == ':'
    &&& b == '-' ==> !is_separator(a)
    &&& b == ':' ==> a != '-' && a != ':'
}

/// `c` may open or close a name: it is neither `-` nor `:`.
pub open spec fn end_ok(c: char) -> bool {
    c != '-' && c != ':'
}

/// Every character of `s` may follow the one before it.
pub open spec fn adjacent_ok(s: Seq<char>) -> bool {
    forall|i: int| 0 < i < s.len() ==> pair_ok(s[i - 1], #[trigger] s[i])
}

/// How often `c` occurs in `s`.
pub open spec fn count(s: Seq<char>, c: char) -> nat
    decreases s.len(),
{
    if s.len() == 0 {
        0
    } else {
        count(s.drop_last(), c) + if s.last() == c {
            1nat
        } else {
            0nat
        }
    }
}

/// `s` begins with the explicit default category.
pub open spec fn has_default_prefix(s: Seq<char>) -> bool {
    DEFAULT_CATEGORY@.is_prefix_of(s)
}

/// `s` without the explicit default category, if it begins with it.
pub open spec fn stripped_default(s: Seq<char>) -> Seq<char> {
    if has_default_prefix(s) {
        s.skip(DEFAULT_CATEGORY@.len() as int)
    } else {
        s
    }
}

/// The separators of `s` stand as they do in a normal form: no separator
/// is adjacent to one it may not touch, neither end is a `-` or a `:`, a
/// `_` only opens the name or follows the `:`, there is at most one `:`,
/// and the default category is not spelled out.
pub open spec fn shaped(s: Seq<char>) -> bool {
    &&& adjacent_ok(s)
    &&& s.len() > 0 ==> end_ok(s.first()) && end_ok(s.last())
    &&& count(s, ':') <= 1
    &&& !has_default_prefix(s)
}

/// Whether `chars` begins with `prefix`.
pub fn starts_with_chars(chars: &Vec<char>, prefix: &Vec<char>) -> (r: bool)
    ensures
        r == prefix@.is_prefix_of(chars@),
{
    if prefix.len() > chars.len() {
        return false;
    }
    let mut i: usize = 0;
    while i < prefix.len()
        invariant
            i <= prefix.len() <= chars.len(),
            forall|k: int| 0 <= k < i ==> chars@[k] == prefix@[k],
        decreases prefix.len() - i,
    {
        if chars[i] != prefix[i] {
            proof {
                assert(chars@.subrange(0, prefix@.len() as int)[i as int] == chars@[i as int]);
            }
            return false;
        }
        i += 1;
    }
    assert(prefix@ =~= chars@.subrange(0, prefix@.len() as int));
    true
}

/// Removes the explicit default category from the start of the name.
pub fn strip_default_chars(chars: &Vec<char>) -> (out: Vec<char>)
    ensures
        out@ == stripped_default(chars@),
{
    let prefix = to_chars(DEFAULT_CATEGORY);
    let from: usize = if starts_with_chars(chars, &prefix) {
        prefix.len()
    } else {
        0
    };
    let mut out: Vec<char> = Vec::new();
    let mut i: usize = from;
    while i < chars.len()
        invariant
            from <= i <= chars.len(),
            out@ == chars@.subrange(from as int, i as int),
        decreases chars.len() - i,
    {
        out.push(chars[i]);
        i += 1;
    }
    assert(chars@.subrange(from as int, chars.len() as int) == chars@.skip(from as int));
    assert(chars@.skip(0) == chars@);
    out
}

/// Whether the separators of `chars` stand as they do in a normal form.
pub fn check_shape(chars: &Vec<char>) -> (r: bool)
    ensures
        r == shaped(chars@),
{
    let n = chars.len();
    if n > 0 {
        let first = chars[0];
        let last = chars[n - 1];
        if first == '-' || first == ':' || last == '-' || last == ':' {
            return false;
        }
    }
    let mut colons: usize = 0;
    let mut i: usize = 0;
    while i < n
        invariant
            n == chars.len(),
            i <= n,
            colons == count(chars@.take(i as int), ':'),
            colons <= i,
            forall|k: int| 0 < k < i ==> pair_ok(chars@[k - 1], #[trigger] chars@[k]),
        decreases n - i,
    {
        let c = chars[i];
        if i > 0 {
            let p = chars[i - 1];
            let ok = (c != '_' || p == ':') && (c != '-' || !(p == '-' || p == ':' || p == '_'))
                && (c != ':' || (p != '-' && p != ':'));
            if !ok {
                return false;
            }
        }
        proof {
            assert(chars@.take(i + 1).drop_last() == chars@.take(i as int));
        }
        if c == ':' {
            colons += 1;
        }
        i += 1;
    }
    assert(chars@.take(n as int) == chars@);
    if colons > 1 {
        return false;
    }
    let prefix = to_chars(DEFAULT_CATEGORY);
    !starts_with_chars(chars, &prefix)
}

} // verus!
