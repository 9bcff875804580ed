//! The "word" character class: Unicode letters and numbers, as the `regex`
//! crate's tables define the general categories `L` and `N`.

use crate::shape::is_separator;
use regex::Regex;
use vstd::prelude::*;

verus! {

/// `regex::Regex`, a compiled regular expression.
#[verifier::external_type_specification]
#[verifier::external_body]
pub struct ExRegex(Regex);

/// `regex::Error`, the reason why a pattern did not compile.
#[verifier::external_type_specification]
#[verifier::external_body]
pub struct ExRegexError(regex::Error);

/// Whether `regex` accepts `pattern` as a regular expression.
pub uninterp spec fn pattern_compiles(pattern: Seq<char>) -> bool;

/// The pattern that a compiled expression was built from.
pub uninterp spec fn pattern_of(re: Regex) -> Seq<char>;

/// Whether an expression built from `pattern` matches anywhere in `haystack`.
pub uninterp spec fn pattern_matches(pattern: Seq<char>, haystack: Seq<char>) -> bool;

/// `Regex::new` parses and compiles a pattern. It succeeds exactly on the
/// patterns it accepts, and the expression it returns is the one for the
/// pattern it was given.
pub assume_specification[ Regex::new ](re: &str) -> (r: Result<Regex, regex::Error>)
    ensures
        r is Ok == pattern_compiles(re@),
        r matches Ok(compiled) ==> pattern_of(compiled) == re@,
;

/// `Regex::is_match` on the text that consists of the single character `c`:
/// whether the expression matches somewhere in that text. The answer depends
/// on the pattern that the expression was built from and on `c` alone.
#[verifier::external_body]
fn matches_char(re: &Regex, c: char) -> (r: bool)
    ensures
        r == pattern_matches(pattern_of(*re), seq![c]),
{
    let mut buf = [0u8; 4];
    re.is_match(c.encode_utf8(&mut buf))
}

/// The pattern of the word class: one letter or one number.
pub const WORD_PATTERN: &'static str = "[\\p{L}\\p{N}]";

/// A letter or a number.
pub open spec fn is_word(c: char) -> bool {
    pattern_matches(WORD_PATTERN@, seq![c])
}

/// A character that a name may hold: a separator, a letter or a number.
pub open spec fn is_allowed(c: char) -> bool {
    is_separator(c) || is_word(c)
}

/// For each character of `s`, whether a name may hold it.
pub open spec fn allowed_flags(s: Seq<char>) -> Seq<bool> {
    Seq::new(s.len(), |i: int| is_allowed(s[i]))
}

/// The compiled word class. Building it is the expensive step, so it is
/// built once and shared by reference.
#[derive(Debug)]
pub struct WordClass {
    re: Regex,
}

impl WordClass {
    /// The expression held is the one for the word pattern.
    pub closed spec fn wf(&self) -> bool {
        pattern_of(self.re) == WORD_PATTERN@
    }

    /// Compiles the word class.
    pub fn new() -> (r: Option<WordClass>)
        ensures
            r is Some == pattern_compiles(WORD_PATTERN@),
            r matches Some(class) ==> class.wf(),
    {
        match Regex::new(WORD_PATTERN) {
            Ok(re) => Some(WordClass { re }),
            Err(_) => None,
        }
    }

    /// Whether `c` is a letter or a number.
    pub fn contains(&self, c: char) -> (r: bool)
        requires
            self.wf(),
        ensures
            r == is_word(c),
    {
        matches_char(&self.re, c)
    }

    /// Whether a name may hold `c`.
    pub fn allows(&self, c: char) -> (r: bool)
        requires
            self.wf(),
        ensures
            r == is_allowed(c),
    {
        c == '-' || c == ':' || c == '_' || self.contains(c)
    }

    /// Marks the characters that a name may hold.
    pub fn classify(&self, chars: &Vec<char>) -> (keep: Vec<bool>)
        requires
            self.wf(),
        ensures
            keep@ == allowed_flags(chars@),
    {
        let mut keep: Vec<bool> = Vec::new();
        let mut i: usize = 0;
        while i < chars.len()
            invariant
                self.wf(),
                i <= chars.len(),
                keep.len() == i,
                forall|k: int| 0 <= k < i ==> keep@[k] == is_allowed(chars@[k]),
            decreases chars.len() - i,
        {
            keep.push(self.allows(chars[i]));
            i += 1;
        }
        assert(keep@ =~= allowed_flags(chars@));
        keep
    }
}

} // verus!
