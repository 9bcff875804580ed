//! The cleanup rules that run once the separators are in place: runs of
//! dashes and colons are merged, dashes beside a colon or an underscore go,
//! and neither a dash nor a colon is left at either end.

use vstd::prelude::*;

verus! {

/// `s` without its leading run of `c`.
pub open spec fn strip_start(s: Seq<char>, c: char) -> Seq<char>
    decreases s.len(),
{
    if s.len() > 0 && s.first() == c {
        strip_start(s.drop_first(), c)
    } else {
        s
    }
}

/// `s` without its trailing run of `c`.
pub open spec fn strip_end(s: Seq<char>, c: char) -> Seq<char>
    decreases s.len(),
{
    if s.len() > 0 && s.last() == c {
        strip_end(s.drop_last(), c)
    } else {
        s
    }
}

/// `s` without the runs of `c` at its two ends.
pub open spec fn strip_ends(s: Seq<char>, c: char) -> Seq<char> {
    strip_end(strip_start(s, c), c)
}

/// `s` with every run of two or more `c` collapsed into one `c`.
pub open spec fn squeezed(s: Seq<char>, c: char) -> Seq<char>
    decreases s.len(),
{
    if s.len() == 0 {
        s
    } else {
        let head = squeezed(s.drop_last(), c);
        if s.last() == c && s.len() >= 2 && s[s.len() - 2] == c {
            head
        } else {
            head.push(s.last())
        }
    }
}

/// Position `i` of `s` stands directly before or after a `c`.
pub open spec fn beside(s: Seq<char>, i: int, c: char) -> bool {
    (i > 0 && s[i - 1] == c) || (i + 1 < s.len() && s[i + 1] == c)
}

/// What `without_beside` keeps of the first `n` characters of `s`.
pub open spec fn without_beside_upto(s: Seq<char>, d: char, c: char, n: int) -> Seq<char>
    decreases n,
{
    if n <= 0 {
        Seq::empty()
    } else {
        let head = without_beside_upto(s, d, c, n - 1);
        if s[n - 1] == d && beside(s, n - 1, c) {
            head
        } else {
            head.push(s[n - 1])
        }
    }
}

/// `s` without the `d` that stand directly before or after a `c`. Where no
/// two `d` are adjacent this is what rewriting `cd` and `dc` to `c` over and
/// over arrives at.
pub open spec fn without_beside(s: Seq<char>, d: char, c: char) -> Seq<char> {
    without_beside_upto(s, d, c, s.len() as int)
}

/// The cleanup rules in their order: dashes at the ends, runs of dashes,
/// runs of colons, dashes beside a colon, dashes beside an underscore,
/// colons at the ends.
pub open spec fn collapsed(s: Seq<char>) -> Seq<char> {
    let a = strip_ends(s, '-');
    let b = squeezed(a, '-');
    let c = squeezed(b, ':');
    let d = without_beside(c, '-', ':');
    let e = without_beside(d, '-', '_');
    strip_ends(e, ':')
}

/// Removes the runs of `c` at both ends.
pub fn strip_ends_chars(chars: &Vec<char>, c: char) -> (out: Vec<char>)
    ensures
        out@ == strip_ends(chars@, c),
{
    let mut a: usize = 0;
    proof {
        assert(chars@.skip(0) == chars@);
    }
    while a < chars.len() && chars[a] == c
        invariant
            a <= chars.len(),
            strip_start(chars@, c) == strip_start(chars@.skip(a as int), c),
        decreases chars.len() - a,
    {
        proof {
            assert(chars@.skip(a as int).drop_first() == chars@.skip(a + 1));
        }
        a += 1;
    }
    let ghost rest = chars@.skip(a as int);
    assert(strip_start(chars@, c) == rest);
    let mut b: usize = chars.len();
    proof {
        assert(chars@.subrange(a as int, b as int) == rest);
    }
    while b > a && chars[b - 1] == c
        invariant
            a <= b <= chars.len(),
            strip_end(rest, c) == strip_end(chars@.subrange(a as int, b as int), c),
        decreases b,
    {
        proof {
            assert(chars@.subrange(a as int, b as int).drop_last() == chars@.subrange(
                a as int,
                b - 1,
            ));
        }
        b -= 1;
    }
    assert(strip_end(rest, c) == chars@.subrange(a as int, b as int));
    let mut out: Vec<char> = Vec::new();
    let mut i: usize = a;
    while i < b
        invariant
            a <= i <= b <= chars.len(),
            out@ == chars@.subrange(a as int, i as int),
        decreases b - i,
    {
        out.push(chars[i]);
        i += 1;
    }
    out
}

/// Collapses every run of `c` into a single `c`.
pub fn squeeze_chars(chars: &Vec<char>, c: char) -> (out: Vec<char>)
    ensures
        out@ == squeezed(chars@, c),
{
    let mut out: Vec<char> = Vec::new();
    let mut i: usize = 0;
    while i < chars.len()
        invariant
            i <= chars.len(),
            out@ == squeezed(chars@.take(i as int), c),
        decreases chars.len() - i,
    {
        proof {
            assert(chars@.take(i + 1).drop_last() == chars@.take(i as int));
        }
        if !(chars[i] == c && i > 0 && chars[i - 1] == c) {
            out.push(chars[i]);
        }
        i += 1;
    }
    proof {
        assert(chars@.take(i as int) == chars@);
    }
    out
}

/// Removes every `d` that stands directly before or after a `c`.
pub fn drop_beside_chars(chars: &Vec<char>, d: char, c: char) -> (out: Vec<char>)
    ensures
        out@ == without_beside(chars@, d, c),
{
    let mut out: Vec<char> = Vec::new();
    let mut i: usize = 0;
    while i < chars.len()
        invariant
            i <= chars.len(),
            out@ == without_beside_upto(chars@, d, c, i as int),
        decreases chars.len() - i,
    {
        let near = (i > 0 && chars[i - 1] == c) || (i + 1 < chars.len() && chars[i + 1] == c);
        if !(chars[i] == d && near) {
            out.push(chars[i]);
        }
        i += 1;
    }
    out
}

/// Applies the cleanup rules in their order.
pub fn collapse_chars(chars: &Vec<char>) -> (out: Vec<char>)
    ensures
        out@ == collapsed(chars@),
{
    let a = strip_ends_chars(chars, '-');
    let b = squeeze_chars(&a, '-');
    let c = squeeze_chars(&b, ':');
    let d = drop_beside_chars(&c, '-', ':');
    let e = drop_beside_chars(&d, '-', '_');
    strip_ends_chars(&e, ':')
}

} // verus!
