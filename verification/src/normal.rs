//! The normalization pipeline and the predicate that recognizes its results.
//!
//! A single leading `/` is taken off the trimmed text before anything else
//! is done to it: it is a path separator, not a character of the name. Every
//! other `/` is a disallowed character like any other and becomes a dash.

use crate::category::{merge_chars, merged};
use crate::class::{allowed_flags, is_allowed, pattern_compiles, WordClass, WORD_PATTERN};
use crate::collapse::{collapse_chars, collapsed};
use crate::filter::{filter_chars, filtered};
use crate::shape::{check_shape, shaped, strip_default_chars, stripped_default};
use crate::text::{from_chars, same_chars, to_chars};
use crate::underscore::{replace_underscore_chars, underscored};
use crate::unicode::{fold_chars, folded, nfkc, nfkc_chars, trim, trimmed};
use vstd::prelude::*;

verus! {

/// `s` without a leading `/`.
pub open spec fn unslashed(s: Seq<char>) -> Seq<char> {
    if s.len() > 0 && s.first() == '/' {
        s.drop_first()
    } else {
        s
    }
}

/// What the Unicode services make of the raw text: trimmed, relieved of a
/// leading `/`, brought to Normalization Form KC and then folded.
pub open spec fn preprocessed(s: Seq<char>) -> Seq<char> {
    folded(nfkc(unslashed(trimmed(s))))
}

/// The rewriting stages, in order, on text whose allowed characters `keep`
/// marks: filter, category merge, underscore demotion, cleanup, and removal
/// of the explicit default category.
pub open spec fn slug(s: Seq<char>, keep: Seq<bool>) -> Seq<char>
    recommends
        keep.len() == s.len(),
{
    stripped_default(collapsed(underscored(merged(filtered(s, keep)))))
}

/// The normal form of `s`.
pub open spec fn normal_form(s: Seq<char>) -> Seq<char> {
    let t = preprocessed(s);
    slug(t, allowed_flags(t))
}

/// `s` is in normal form as it stands: every character is a separator, a
/// letter or a number, the separators are in shape, and the text is in
/// folded form, which is to say that the Unicode services find nothing to
/// change in it.
pub open spec fn in_normal_form(s: Seq<char>) -> bool {
    &&& forall|i: int| 0 <= i < s.len() ==> is_allowed(#[trigger] s[i])
    &&& shaped(s)
    &&& preprocessed(s) == s
}

/// Runs the rewriting stages on characters that are already classified:
/// `keep[i]` says whether a name may hold `chars[i]`.
pub fn slug_chars(chars: &Vec<char>, keep: &Vec<bool>) -> (out: Vec<char>)
    requires
        keep.len() == chars.len(),
    ensures
        out@ == slug(chars@, keep@),
{
    let mut work = filter_chars(chars, keep);
    merge_chars(&mut work);
    replace_underscore_chars(&mut work);
    let tidy = collapse_chars(&work);
    strip_default_chars(&tidy)
}

/// Trims `text` and hands back its characters as the Unicode services
/// leave them: without a leading `/`, in Normalization Form KC, folded.
pub fn preprocess(text: &mut String) -> (out: Vec<char>)
    ensures
        final(text)@ == trimmed(old(text)@),
        out@ == preprocessed(old(text)@),
{
    trim(text);
    let mut chars = to_chars(text.as_str());
    if chars.len() > 0 && chars[0] == '/' {
        chars.remove(0);
        assert(chars@ == trimmed(old(text)@).drop_first());
    }
    let composed = nfkc_chars(&chars);
    fold_chars(&composed)
}

/// Rewrites `text` into its normal form, with a word class at hand.
pub fn normalize_with(class: &WordClass, text: &mut String)
    requires
        class.wf(),
    ensures
        final(text)@ == normal_form(old(text)@),
{
    let lower = preprocess(text);
    let keep = class.classify(&lower);
    let out = slug_chars(&lower, &keep);
    *text = from_chars(&out);
}

/// Whether `text` is in normal form already, with a word class at hand.
/// The characters and the separators are checked on the text itself; only
/// the Unicode services are run, on a copy.
pub fn is_normal_with(class: &WordClass, text: &str) -> (r: bool)
    requires
        class.wf(),
    ensures
        r == in_normal_form(text@),
{
    let chars = to_chars(text);
    let mut i: usize = 0;
    while i < chars.len()
        invariant
            class.wf(),
            i <= chars.len(),
            chars@ == text@,
            forall|k: int| 0 <= k < i ==> is_allowed(#[trigger] chars@[k]),
        decreases chars.len() - i,
    {
        if !class.allows(chars[i]) {
            return false;
        }
        i += 1;
    }
    if !check_shape(&chars) {
        return false;
    }
    let mut copy = from_chars(&chars);
    let fresh = preprocess(&mut copy);
    same_chars(&fresh, &chars)
}

/// Rewrites `text` into its normal form. The text is left as it is only if
/// the word class cannot be built.
pub fn normalize(text: &mut String)
    ensures
        final(text)@ == (if pattern_compiles(WORD_PATTERN@) {
            normal_form(old(text)@)
        } else {
            old(text)@
        }),
{
    match WordClass::new() {
        Some(class) => normalize_with(&class, text),
        None => {},
    }
}

/// Whether `text` is in normal form already. Nothing is recognized if the
/// word class cannot be built.
pub fn is_normal(text: &str) -> (r: bool)
    ensures
        r == (pattern_compiles(WORD_PATTERN@) && in_normal_form(text@)),
{
    match WordClass::new() {
        Some(class) => is_normal_with(&class, text),
        None => false,
    }
}

} // verus!
