//! What the cleanup rules keep and what they establish.

use crate::collapse::{
    beside, squeezed, strip_end, strip_ends, strip_start, without_beside_upto,
};
use crate::occurrence::lemma_count_push;
use crate::shape::count;
use vstd::prelude::*;

verus! {

/// Every character of `s` satisfies `p`.
pub open spec fn each_char(s: Seq<char>, p: spec_fn(char) -> bool) -> bool {
    forall|i: int| 0 <= i < s.len() ==> p(#[trigger] s[i])
}

/// Every two neighbours of `s` satisfy `ok`.
pub open spec fn each_pair(s: Seq<char>, ok: spec_fn(char, char) -> bool) -> bool {
    forall|i: int| 0 < i < s.len() ==> ok(s[i - 1], #[trigger] s[i])
}

/// Stripping the start removes a prefix made of `c` and stops at the first
/// character that is not `c`. Returns the length of that prefix.
pub proof fn lemma_strip_start(s: Seq<char>, c: char) -> (k: int)
    ensures
        0 <= k <= s.len(),
        strip_start(s, c) == s.skip(k),
        forall|i: int| 0 <= i < k ==> s[i] == c,
        k < s.len() ==> s[k] != c,
    decreases s.len(),
{
    if s.len() > 0 && s.first() == c {
        let rest = s.drop_first();
        let k0 = lemma_strip_start(rest, c);
        assert(rest.skip(k0) == s.skip(k0 + 1));
        assert forall|i: int| 0 <= i < k0 + 1 implies s[i] == c by {
            if i > 0 {
                assert(rest[i - 1] == s[i]);
            }
        }
        if k0 + 1 < s.len() {
            assert(rest[k0] == s[k0 + 1]);
        }
        k0 + 1
    } else {
        assert(s.skip(0) == s);
        0
    }
}

/// Stripping the end removes a suffix made of `c` and stops at the last
/// character that is not `c`. Returns the length of what is left.
pub proof fn lemma_strip_end(s: Seq<char>, c: char) -> (k: int)
    ensures
        0 <= k <= s.len(),
        strip_end(s, c) == s.take(k),
        forall|i: int| k <= i < s.len() ==> s[i] == c,
        k > 0 ==> s[k - 1] != c,
    decreases s.len(),
{
    if s.len() > 0 && s.last() == c {
        let rest = s.drop_last();
        let k0 = lemma_strip_end(rest, c);
        assert(rest.take(k0) == s.take(k0));
        assert forall|i: int| k0 <= i < s.len() implies s[i] == c by {
            if i < s.len() - 1 {
                assert(rest[i] == s[i]);
            }
        }
        if k0 > 0 {
            assert(rest[k0 - 1] == s[k0 - 1]);
        }
        k0
    } else {
        assert(s.take(s.len() as int) == s);
        s.len() as int
    }
}

/// Stripping both ends leaves the stretch between the leading and the
/// trailing run of `c`. Returns the bounds of that stretch.
pub proof fn lemma_strip_ends(s: Seq<char>, c: char) -> (r: (int, int))
    ensures
        0 <= r.0 <= r.1 <= s.len(),
        strip_ends(s, c) == s.subrange(r.0, r.1),
        forall|i: int| 0 <= i < r.0 ==> s[i] == c,
        forall|i: int| r.1 <= i < s.len() ==> s[i] == c,
        r.0 < r.1 ==> s[r.0] != c && s[r.1 - 1] != c,
{
    let a = lemma_strip_start(s, c);
    let t = s.skip(a);
    let k = lemma_strip_end(t, c);
    assert(t.take(k) == s.subrange(a, a + k));
    assert forall|i: int| a + k <= i < s.len() implies s[i] == c by {
        assert(t[i - a] == s[i]);
    }
    if k > 0 {
        assert(t[k - 1] == s[a + k - 1]);
    }
    (a, a + k)
}

/// Collapsing runs of `c` keeps the two ends and leaves as neighbours only
/// characters that were neighbours before and are not both `c`.
pub proof fn lemma_squeezed_pairs(s: Seq<char>, c: char, ok: spec_fn(char, char) -> bool)
    requires
        forall|i: int|
            0 < i < s.len() && !(s[i - 1] == c && s[i] == c) ==> ok(s[i - 1], #[trigger] s[i]),
    ensures
        each_pair(squeezed(s, c), ok),
        s.len() > 0 ==> squeezed(s, c).len() > 0 && squeezed(s, c).first() == s.first()
            && squeezed(s, c).last() == s.last(),
        s.len() == 0 ==> squeezed(s, c).len() == 0,
    decreases s.len(),
{
    if s.len() > 0 {
        let head = s.drop_last();
        assert forall|i: int| 0 < i < head.len() && !(head[i - 1] == c && head[i] == c) implies ok(
            head[i - 1],
            #[trigger] head[i],
        ) by {
            assert(head[i - 1] == s[i - 1] && head[i] == s[i]);
        }
        lemma_squeezed_pairs(head, c, ok);
        let out0 = squeezed(head, c);
        let out = squeezed(s, c);
        let n = s.len() - 1;
        if s.last() == c && s.len() >= 2 && s[n - 1] == c {
            assert(head.last() == s[n - 1]);
        } else {
            assert(out == out0.push(s.last()));
            assert forall|i: int| 0 < i < out.len() implies ok(out[i - 1], #[trigger] out[i]) by {
                if i < out0.len() {
                    assert(out[i - 1] == out0[i - 1] && out[i] == out0[i]);
                } else {
                    assert(head.last() == s[n - 1]);
                    assert(out[i - 1] == s[n - 1] && out[i] == s[n]);
                }
            }
            if head.len() > 0 {
                assert(head.first() == s.first());
            }
        }
    }
}

/// Collapsing runs keeps every property that each character had.
pub proof fn lemma_squeezed_chars(s: Seq<char>, c: char, p: spec_fn(char) -> bool)
    requires
        each_char(s, p),
    ensures
        each_char(squeezed(s, c), p),
    decreases s.len(),
{
    if s.len() > 0 {
        let head = s.drop_last();
        assert forall|i: int| 0 <= i < head.len() implies p(#[trigger] head[i]) by {
            assert(head[i] == s[i]);
        }
        lemma_squeezed_chars(head, c, p);
        assert(p(s[s.len() - 1]));
    }
}

/// Collapsing runs adds no occurrence of any character.
pub proof fn lemma_squeezed_count(s: Seq<char>, c: char, x: char)
    ensures
        count(squeezed(s, c), x) <= count(s, x),
    decreases s.len(),
{
    if s.len() > 0 {
        lemma_squeezed_count(s.drop_last(), c, x);
        lemma_count_push(squeezed(s.drop_last(), c), s.last(), x);
    }
}

/// Where no two `c` are neighbours there is nothing to collapse.
pub proof fn lemma_squeezed_same(s: Seq<char>, c: char)
    requires
        forall|i: int| 0 < i < s.len() ==> !(s[i - 1] == c && #[trigger] s[i] == c),
    ensures
        squeezed(s, c) == s,
    decreases s.len(),
{
    if s.len() > 0 {
        let head = s.drop_last();
        assert forall|i: int| 0 < i < head.len() implies !(head[i - 1] == c && #[trigger] head[i]
            == c) by {
            assert(head[i - 1] == s[i - 1] && head[i] == s[i]);
        }
        lemma_squeezed_same(head, c);
        if s.len() >= 2 {
            let n = s.len() - 1;
            assert(!(s[n - 1] == c && s[n] == c));
        }
        assert(head.push(s.last()) == s);
    }
}

/// The character at position `i` stays when the `d` beside a `c` are removed.
pub open spec fn stays(s: Seq<char>, d: char, c: char, i: int) -> bool {
    !(s[i] == d && beside(s, i, c))
}

/// Removing the `d` beside a `c`, where no two `d` are neighbours, leaves
/// as neighbours two characters that were neighbours and both stay, or the
/// two characters around a `d` that went. The last character that stays
/// among the first `n` is then the last of the result.
pub proof fn lemma_without_beside_pairs(
    s: Seq<char>,
    d: char,
    c: char,
    ok: spec_fn(char, char) -> bool,
    n: int,
)
    requires
        0 <= n <= s.len(),
        forall|i: int| 0 < i < s.len() ==> !(s[i - 1] == d && #[trigger] s[i] == d),
        forall|i: int|
            0 < i < s.len() && stays(s, d, c, i - 1) && stays(s, d, c, i) ==> ok(
                s[i - 1],
                #[trigger] s[i],
            ),
        forall|i: int|
            1 < i < s.len() && !stays(s, d, c, i - 1) && stays(s, d, c, i) ==> ok(
                s[i - 2],
                #[trigger] s[i],
            ),
    ensures
        each_pair(without_beside_upto(s, d, c, n), ok),
        n > 0 && stays(s, d, c, n - 1) ==> without_beside_upto(s, d, c, n).len() > 0
            && without_beside_upto(s, d, c, n).last() == s[n - 1],
        n > 1 && !stays(s, d, c, n - 1) ==> without_beside_upto(s, d, c, n).len() > 0
            && without_beside_upto(s, d, c, n).last() == s[n - 2],
        n == 1 && !stays(s, d, c, 0) ==> without_beside_upto(s, d, c, n).len() == 0,
        n == 0 ==> without_beside_upto(s, d, c, n).len() == 0,
    decreases n,
{
    if n > 0 {
        lemma_without_beside_pairs(s, d, c, ok, n - 1);
        let out0 = without_beside_upto(s, d, c, n - 1);
        let out = without_beside_upto(s, d, c, n);
        if stays(s, d, c, n - 1) {
            assert(out == out0.push(s[n - 1]));
            assert forall|i: int| 0 < i < out.len() implies ok(out[i - 1], #[trigger] out[i]) by {
                if i < out0.len() {
                    assert(out[i - 1] == out0[i - 1] && out[i] == out0[i]);
                } else if n - 1 > 0 && stays(s, d, c, n - 2) {
                    assert(out[i - 1] == s[n - 2] && out[i] == s[n - 1]);
                } else {
                    assert(n - 1 > 1);
                    assert(out[i - 1] == s[n - 3] && out[i] == s[n - 1]);
                }
            }
        } else {
            assert(out == out0);
            if n > 1 {
                assert(!(s[n - 2] == d && s[n - 1] == d));
                assert(stays(s, d, c, n - 2));
            }
        }
    }
}

/// Removing the `d` beside a `c` keeps the first character if it stays.
pub proof fn lemma_without_beside_first(s: Seq<char>, d: char, c: char, n: int)
    requires
        0 < n <= s.len(),
        stays(s, d, c, 0),
    ensures
        without_beside_upto(s, d, c, n).len() > 0,
        without_beside_upto(s, d, c, n).first() == s[0],
    decreases n,
{
    if n > 1 {
        lemma_without_beside_first(s, d, c, n - 1);
    } else {
        let none = without_beside_upto(s, d, c, 0);
        assert(none.len() == 0);
        assert(without_beside_upto(s, d, c, 1) == none.push(s[0]));
    }
}

/// Removing the `d` beside a `c` keeps every property that each character had.
pub proof fn lemma_without_beside_chars(
    s: Seq<char>,
    d: char,
    c: char,
    p: spec_fn(char) -> bool,
    n: int,
)
    requires
        0 <= n <= s.len(),
        each_char(s, p),
    ensures
        each_char(without_beside_upto(s, d, c, n), p),
    decreases n,
{
    if n > 0 {
        lemma_without_beside_chars(s, d, c, p, n - 1);
        assert(p(s[n - 1]));
    }
}

/// Removing the `d` beside a `c` adds no occurrence of any character.
pub proof fn lemma_without_beside_count(s: Seq<char>, d: char, c: char, x: char, n: int)
    requires
        0 <= n <= s.len(),
    ensures
        count(without_beside_upto(s, d, c, n), x) <= count(s.take(n), x),
    decreases n,
{
    if n > 0 {
        lemma_without_beside_count(s, d, c, x, n - 1);
        lemma_count_push(without_beside_upto(s, d, c, n - 1), s[n - 1], x);
        assert(s.take(n).drop_last() == s.take(n - 1));
    }
}

/// Where no `d` stands beside a `c` there is nothing to remove.
pub proof fn lemma_without_beside_same(s: Seq<char>, d: char, c: char, n: int)
    requires
        0 <= n <= s.len(),
        forall|i: int| 0 <= i < s.len() ==> #[trigger] stays(s, d, c, i),
    ensures
        without_beside_upto(s, d, c, n) == s.take(n),
    decreases n,
{
    if n > 0 {
        lemma_without_beside_same(s, d, c, n - 1);
        assert(stays(s, d, c, n - 1));
        assert(s.take(n - 1).push(s[n - 1]) == s.take(n));
    }
}

} // verus!
