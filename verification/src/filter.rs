//! The character-class filter: whatever is not allowed in a name becomes a
//! placeholder dash, one dash for each maximal run of such characters.

use vstd::prelude::*;

verus! {

/// `s` with every maximal run of characters that `keep` does not mark
/// replaced by a single `-`. `keep[i]` says whether `s[i]` is allowed.
pub open spec fn filtered(s: Seq<char>, keep: Seq<bool>) -> Seq<char>
    recommends
        keep.len() == s.len(),
    decreases s.len(),
{
    if s.len() == 0 {
        Seq::empty()
    } else {
        let n = s.len() - 1;
        let head = filtered(s.drop_last(), keep.drop_last());
        if keep[n] {
            head.push(s[n])
        } else if n > 0 && !keep[n - 1] {
            head
        } else {
            head.push('-')
        }
    }
}

/// Replaces every maximal run of characters that are not marked in `keep`
/// by a single `-`, in one pass from the left.
pub fn filter_chars(chars: &Vec<char>, keep: &Vec<bool>) -> (out: Vec<char>)
    requires
        keep.len() == chars.len(),
    ensures
        out@ == filtered(chars@, keep@),
{
    let mut out: Vec<char> = Vec::new();
    let mut in_run = false;
    let mut i: usize = 0;
    while i < chars.len()
        invariant
            i <= chars.len(),
            keep.len() == chars.len(),
            in_run == (i > 0 && !keep@[i - 1]),
            out@ == filtered(chars@.take(i as int), keep@.take(i as int)),
        decreases chars.len() - i,
    {
        proof {
            assert(chars@.take(i + 1).drop_last() == chars@.take(i as int));
            assert(keep@.take(i + 1).drop_last() == keep@.take(i as int));
        }
        if keep[i] {
            out.push(chars[i]);
            in_run = false;
        } else {
            if !in_run {
                out.push('-');
            }
            in_run = true;
        }
        i += 1;
    }
    proof {
        assert(chars@.take(i as int) == chars@);
        assert(keep@.take(i as int) == keep@);
    }
    out
}

} // verus!
