//! Underscore demotion: `_` is structural only at the very start of a name
//! or directly after a category separator; everywhere else it becomes `-`.

use crate::text::{from_chars, to_chars};
use vstd::prelude::*;

verus! {

/// The `_` at position `i` of `s` is kept: it opens the name or follows a `:`.
pub open spec fn underscore_kept(s: Seq<char>, i: int) -> bool {
    i == 0 || s[i - 1] == ':'
}

/// `s` with every `_` that is not kept rewritten to `-`. The decision is
/// taken on `s` itself, so of several `_` in a row only the first can stay.
pub open spec fn underscored(s: Seq<char>) -> Seq<char> {
    Seq::new(
        s.len(),
        |i: int|
            if s[i] == '_' && !underscore_kept(s, i) {
                '-'
            } else {
                s[i]
            },
    )
}

/// Of two `_` in a row the second never stays.
pub proof fn lemma_second_underscore_goes(s: Seq<char>, i: int)
    requires
        0 < i < s.len(),
        s[i - 1] == '_',
        s[i] == '_',
    ensures
        underscored(s)[i] == '-',
{
}

/// Rewrites the `_` that are not kept, scanning from the left with one bit
/// of lookback: whether the previous character was a `:`.
pub fn replace_underscore_chars(chars: &mut Vec<char>)
    ensures
        final(chars)@ == underscored(old(chars)@),
{
    let ghost before = chars@;
    let mut prev_colon = false;
    let mut i: usize = 0;
    while i < chars.len()
        invariant
            i <= chars.len(),
            chars.len() == before.len(),
            prev_colon == (i > 0 && before[i - 1] == ':'),
            forall|k: int| 0 <= k < i ==> chars@[k] == underscored(before)[k],
            forall|k: int| i <= k < chars.len() ==> chars@[k] == before[k],
        decreases chars.len() - i,
    {
        let c = chars[i];
        if c == '_' && i > 0 && !prev_colon {
            chars.set(i, '-');
        }
        prev_colon = c == ':';
        i += 1;
    }
    assert(chars@ =~= underscored(before));
}

/// Replaces with `-` every `_` of `text` that neither opens it nor follows a `:`.
pub fn replace_underscores(text: &mut String)
    ensures
        final(text)@ == underscored(old(text)@),
{
    let mut chars = to_chars(text.as_str());
    replace_underscore_chars(&mut chars);
    *text = from_chars(&chars);
}

} // verus!
