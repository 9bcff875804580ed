//! The Unicode services that run before any rewriting: trimming of white
//! space, compatibility normalization and case folding.

use crate::text::{from_chars, to_chars};
use trim_in_place::TrimInPlace;
use unicode_normalization::UnicodeNormalization;
use vstd::prelude::*;

verus! {

/// Whether `c` has the Unicode property `White_Space`.
pub uninterp spec fn is_white_space(c: char) -> bool;

/// The text in Unicode Normalization Form KC.
pub uninterp spec fn nfkc(s: Seq<char>) -> Seq<char>;

/// The lowercase mapping of one character, which may be several characters.
pub uninterp spec fn lowercase_of(c: char) -> Seq<char>;

/// `s` without its leading white space.
pub open spec fn trimmed_start(s: Seq<char>) -> Seq<char>
    decreases s.len(),
{
    if s.len() > 0 && is_white_space(s.first()) {
        trimmed_start(s.drop_first())
    } else {
        s
    }
}

/// `s` without its trailing white space.
pub open spec fn trimmed_end(s: Seq<char>) -> Seq<char>
    decreases s.len(),
{
    if s.len() > 0 && is_white_space(s.last()) {
        trimmed_end(s.drop_last())
    } else {
        s
    }
}

/// `s` without white space at either end.
pub open spec fn trimmed(s: Seq<char>) -> Seq<char> {
    trimmed_end(trimmed_start(s))
}

/// The lowercase mappings of the characters of `s`, one after the other.
pub open spec fn folded(s: Seq<char>) -> Seq<char>
    decreases s.len(),
{
    if s.len() == 0 {
        Seq::empty()
    } else {
        folded(s.drop_last()) + lowercase_of(s.last())
    }
}

/// `TrimInPlace::trim_in_place` cuts the text down to what `str::trim`
/// returns: the text without the white space at its two ends, so that what
/// is left neither starts nor ends with white space.
#[verifier::external_body]
pub(crate) fn trim(text: &mut String)
    ensures
        final(text)@ == trimmed(old(text)@),
        final(text)@.len() > 0 ==> !is_white_space(final(text)@.first()) && !is_white_space(
            final(text)@.last(),
        ),
{
    text.trim_in_place();
}

/// `UnicodeNormalization::nfkc` yields the characters of the text in
/// Normalization Form KC.
#[verifier::external_body]
pub(crate) fn nfkc_chars(chars: &Vec<char>) -> (out: Vec<char>)
    ensures
        out@ == nfkc(chars@),
{
    chars.iter().copied().nfkc().collect()
}

/// `char::to_lowercase` yields the lowercase mapping of `c`.
#[verifier::external_body]
pub(crate) fn lowercase(c: char) -> (out: Vec<char>)
    ensures
        out@ == lowercase_of(c),
{
    c.to_lowercase().collect()
}

/// Folds every character to lowercase.
pub fn fold_chars(chars: &Vec<char>) -> (out: Vec<char>)
    ensures
        out@ == folded(chars@),
{
    let mut out: Vec<char> = Vec::new();
    let mut i: usize = 0;
    while i < chars.len()
        invariant
            i <= chars.len(),
            out@ == folded(chars@.take(i as int)),
        decreases chars.len() - i,
    {
        let lower = lowercase(chars[i]);
        let ghost head = out@;
        let mut j: usize = 0;
        while j < lower.len()
            invariant
                j <= lower.len(),
                out@ == head + lower@.take(j as int),
            decreases lower.len() - j,
        {
            out.push(lower[j]);
            j += 1;
        }
        proof {
            assert(lower@.take(j as int) == lower@);
            assert(chars@.take(i + 1).drop_last() == chars@.take(i as int));
        }
        i += 1;
    }
    assert(chars@.take(i as int) == chars@);
    out
}

/// Rewrites `text` to Normalization Form KC.
pub fn normalize_nfkc(text: &mut String)
    ensures
        final(text)@ == nfkc(old(text)@),
{
    let chars = to_chars(text.as_str());
    let normal = nfkc_chars(&chars);
    *text = from_chars(&normal);
}

/// Folds `text` to lowercase, character by character, by the Unicode
/// mapping and not only for ASCII.
pub fn casefold(text: &mut String)
    ensures
        final(text)@ == folded(old(text)@),
{
    let chars = to_chars(text.as_str());
    let lower = fold_chars(&chars);
    *text = from_chars(&lower);
}

} // verus!
