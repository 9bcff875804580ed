//! Category merging: a name carries at most one category separator, so every
//! `:` but the last is folded into the body of the name as a `-`.

use crate::text::{from_chars, to_chars};
use vstd::prelude::*;

verus! {

/// Some position after `i` holds a `:`.
pub open spec fn has_later_colon(s: Seq<char>, i: int) -> bool {
    exists|j: int| i < j < s.len() && s[j] == ':'
}

/// `s` with every `:` but the last one rewritten to `-`.
pub open spec fn merged(s: Seq<char>) -> Seq<char> {
    Seq::new(
        s.len(),
        |i: int|
            if s[i] == ':' && has_later_colon(s, i) {
                '-'
            } else {
                s[i]
            },
    )
}

/// Rewrites every `:` but the last one to `-`, scanning from the right so
/// that the first separator met is the one that stays.
pub fn merge_chars(chars: &mut Vec<char>)
    ensures
        final(chars)@ == merged(old(chars)@),
{
    let ghost before = chars@;
    let mut seen = false;
    let mut i: usize = chars.len();
    while i > 0
        invariant
            i <= chars.len(),
            chars.len() == before.len(),
            seen == has_later_colon(before, i - 1),
            forall|k: int| 0 <= k < i ==> chars@[k] == before[k],
            forall|k: int| i <= k < chars.len() ==> chars@[k] == merged(before)[k],
        decreases i,
    {
        i -= 1;
        let ghost was = seen;
        if chars[i] == ':' {
            if seen {
                chars.set(i, '-');
            } else {
                seen = true;
            }
        }
        proof {
            if before[i as int] == ':' {
                assert(i - 1 < i < before.len() && before[i as int] == ':');
            }
            if was {
                let j = choose|j: int| i < j < before.len() && before[j] == ':';
                assert(i - 1 < j < before.len() && before[j] == ':');
            }
            if has_later_colon(before, i - 1) && !seen {
                let j = choose|j: int| i - 1 < j < before.len() && before[j] == ':';
                assert(j != i);
                assert(i < j < before.len() && before[j] == ':');
            }
        }
    }
    assert(chars@ =~= merged(before));
}

/// Merges the categories of `text`: every `:` but the last becomes `-`.
pub fn merge_multi_categories(text: &mut String)
    ensures
        final(text)@ == merged(old(text)@),
{
    let mut chars = to_chars(text.as_str());
    merge_chars(&mut chars);
    *text = from_chars(&chars);
}

} // verus!
