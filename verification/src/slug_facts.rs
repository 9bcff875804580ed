//! The rewriting stages one by one: what each can rely on and what it
//! hands to the next, up to the shape of the finished name.

use crate::category::{has_later_colon, merged};
use crate::collapse::{collapsed, squeezed, strip_ends, without_beside};
use crate::collapse_facts::{
    each_char, each_pair, lemma_squeezed_count, lemma_squeezed_pairs, lemma_squeezed_same,
    lemma_strip_ends, lemma_without_beside_count, lemma_without_beside_first,
    lemma_without_beside_pairs, stays,
};
use crate::filter::filtered;
use crate::occurrence::{at_most_once, lemma_at_most_once};
use crate::shape::{
    count, end_ok, has_default_prefix, pair_ok, shaped, stripped_default, DEFAULT_CATEGORY,
};
use crate::underscore::underscored;
use vstd::prelude::*;

verus! {

/// A `_` follows only a `:`.
pub open spec fn ok_placed(l: char, r: char) -> bool {
    r == '_' ==> l == ':'
}

/// As `ok_placed`, and no `-` follows a `-`.
pub open spec fn ok_dashes(l: char, r: char) -> bool {
    ok_placed(l, r) && !(l == '-' && r == '-')
}

/// As `ok_dashes`, and no `-` touches a `:`.
pub open spec fn ok_colons(l: char, r: char) -> bool {
    ok_dashes(l, r) && !(l == '-' && r == ':') && !(l == ':' && r == '-')
}

/// As `ok_colons`, and no `-` follows a `_`.
pub open spec fn ok_unders(l: char, r: char) -> bool {
    ok_colons(l, r) && !(l == '_' && r == '-')
}

/// What holds between two cleanup rules: the neighbours satisfy `ok`, there
/// is at most one `:`, and no `-` stands at either end.
pub open spec fn tidy(s: Seq<char>, ok: spec_fn(char, char) -> bool) -> bool {
    &&& each_pair(s, ok)
    &&& count(s, ':') <= 1
    &&& s.len() > 0 ==> s.first() != '-' && s.last() != '-'
}

/// The filter keeps the characters that are marked and adds only dashes.
pub proof fn lemma_filtered_chars(s: Seq<char>, keep: Seq<bool>, p: spec_fn(char) -> bool)
    requires
        keep.len() == s.len(),
        forall|j: int| 0 <= j < s.len() && keep[j] ==> p(#[trigger] s[j]),
        p('-'),
    ensures
        each_char(filtered(s, keep), p),
    decreases s.len(),
{
    if s.len() > 0 {
        let head = s.drop_last();
        let flags = keep.drop_last();
        assert forall|j: int| 0 <= j < head.len() && flags[j] implies p(#[trigger] head[j]) by {
            assert(head[j] == s[j] && flags[j] == keep[j]);
        }
        lemma_filtered_chars(head, flags, p);
        if keep[s.len() - 1] {
            assert(p(s[s.len() - 1]));
        }
    }
}

/// Where every character is marked the filter changes nothing.
pub proof fn lemma_filtered_same(s: Seq<char>, keep: Seq<bool>)
    requires
        keep.len() == s.len(),
        forall|j: int| 0 <= j < keep.len() ==> keep[j],
    ensures
        filtered(s, keep) == s,
    decreases s.len(),
{
    if s.len() > 0 {
        lemma_filtered_same(s.drop_last(), keep.drop_last());
        assert(s.drop_last().push(s.last()) == s);
    }
}

/// After the merge at most one `:` is left.
pub proof fn lemma_merged_once(s: Seq<char>)
    ensures
        at_most_once(merged(s), ':'),
{
    let m = merged(s);
    assert forall|i: int, j: int| 0 <= i < j < m.len() implies !(m[i] == ':' && m[j] == ':') by {
        if m[i] == ':' && m[j] == ':' {
            assert(s[j] == ':');
            assert(has_later_colon(s, i));
        }
    }
}

/// Where there is at most one `:` the merge changes nothing.
pub proof fn lemma_merged_same(s: Seq<char>)
    requires
        at_most_once(s, ':'),
    ensures
        merged(s) == s,
{
    assert forall|i: int| 0 <= i < s.len() implies merged(s)[i] == s[i] by {
        if s[i] == ':' && has_later_colon(s, i) {
            let j = choose|j: int| i < j < s.len() && s[j] == ':';
            assert(!(s[i] == ':' && s[j] == ':'));
        }
    }
    assert(merged(s) =~= s);
}

/// After the underscores are demoted every `_` left opens the name or
/// follows a `:`, and no `:` has been added.
pub proof fn lemma_underscored_placed(s: Seq<char>)
    requires
        at_most_once(s, ':'),
    ensures
        each_pair(underscored(s), |l: char, r: char| ok_placed(l, r)),
        count(underscored(s), ':') <= 1,
{
    let u = underscored(s);
    assert(at_most_once(u, ':')) by {
        assert forall|i: int, j: int| 0 <= i < j < u.len() implies !(u[i] == ':' && u[j]
            == ':') by {
            assert(u[i] == ':' ==> s[i] == ':');
            assert(u[j] == ':' ==> s[j] == ':');
        }
    }
    lemma_at_most_once(u, ':');
    assert forall|i: int| 0 < i < u.len() implies ok_placed(u[i - 1], #[trigger] u[i]) by {
        if u[i] == '_' {
            assert(s[i] == '_');
            assert(s[i - 1] == ':');
            assert(u[i - 1] == ':');
        }
    }
}

/// Where every `_` is in place already the demotion changes nothing.
pub proof fn lemma_underscored_same(s: Seq<char>)
    requires
        each_pair(s, |l: char, r: char| ok_placed(l, r)),
    ensures
        underscored(s) == s,
{
    assert forall|i: int| 0 <= i < s.len() implies underscored(s)[i] == s[i] by {
        if s[i] == '_' && i > 0 {
            assert(ok_placed(s[i - 1], s[i]));
        }
    }
    assert(underscored(s) =~= s);
}

/// A stretch of a tidy text is tidy but for its ends.
pub proof fn lemma_stretch(s: Seq<char>, ok: spec_fn(char, char) -> bool, a: int, b: int)
    requires
        0 <= a <= b <= s.len(),
        each_pair(s, ok),
        count(s, ':') <= 1,
    ensures
        each_pair(s.subrange(a, b), ok),
        count(s.subrange(a, b), ':') <= 1,
{
    let t = s.subrange(a, b);
    assert forall|i: int| 0 < i < t.len() implies ok(t[i - 1], #[trigger] t[i]) by {
        assert(t[i - 1] == s[a + i - 1]);
        assert(ok(s[a + i - 1], s[a + i]));
    }
    lemma_at_most_once(s, ':');
    assert(at_most_once(t, ':')) by {
        assert forall|i: int, j: int| 0 <= i < j < t.len() implies !(t[i] == ':' && t[j]
            == ':') by {
            assert(!(s[a + i] == ':' && s[a + j] == ':'));
        }
    }
    lemma_at_most_once(t, ':');
}

/// First rule: the dashes at the two ends go.
pub proof fn lemma_rule_strip_dashes(s: Seq<char>)
    requires
        each_pair(s, |l: char, r: char| ok_placed(l, r)),
        count(s, ':') <= 1,
    ensures
        tidy(strip_ends(s, '-'), |l: char, r: char| ok_placed(l, r)),
{
    let r = lemma_strip_ends(s, '-');
    lemma_stretch(s, |l: char, r: char| ok_placed(l, r), r.0, r.1);
}

/// Second rule: runs of dashes collapse.
pub proof fn lemma_rule_squeeze_dashes(s: Seq<char>)
    requires
        tidy(s, |l: char, r: char| ok_placed(l, r)),
    ensures
        tidy(squeezed(s, '-'), |l: char, r: char| ok_dashes(l, r)),
{
    assert forall|i: int| 0 < i < s.len() && !(s[i - 1] == '-' && s[i] == '-') implies ok_dashes(
        s[i - 1],
        #[trigger] s[i],
    ) by {
        assert(ok_placed(s[i - 1], s[i]));
    }
    lemma_squeezed_pairs(s, '-', |l: char, r: char| ok_dashes(l, r));
    lemma_squeezed_count(s, '-', ':');
}

/// Third rule: with at most one `:` there is no run of colons to collapse.
pub proof fn lemma_rule_squeeze_colons(s: Seq<char>)
    requires
        count(s, ':') <= 1,
    ensures
        squeezed(s, ':') == s,
{
    lemma_at_most_once(s, ':');
    assert forall|i: int| 0 < i < s.len() implies !(s[i - 1] == ':' && #[trigger] s[i] == ':') by {
        assert(!(s[i - 1] == ':' && s[i] == ':'));
    }
    lemma_squeezed_same(s, ':');
}

/// Fourth rule: the dashes beside the `:` go.
pub proof fn lemma_rule_colon_dashes(s: Seq<char>)
    requires
        tidy(s, |l: char, r: char| ok_dashes(l, r)),
    ensures
        tidy(without_beside(s, '-', ':'), |l: char, r: char| ok_colons(l, r)),
{
    let n = s.len() as int;
    assert forall|i: int| 0 < i < s.len() implies !(s[i - 1] == '-' && #[trigger] s[i] == '-') by {
        assert(ok_dashes(s[i - 1], s[i]));
    }
    assert forall|i: int|
        0 < i < s.len() && stays(s, '-', ':', i - 1) && stays(s, '-', ':', i) implies ok_colons(
        s[i - 1],
        #[trigger] s[i],
    ) by {
        assert(ok_dashes(s[i - 1], s[i]));
    }
    assert forall|i: int|
        1 < i < s.len() && !stays(s, '-', ':', i - 1) && stays(s, '-', ':', i) implies ok_colons(
        s[i - 2],
        #[trigger] s[i],
    ) by {
        assert(ok_dashes(s[i - 1], s[i]));
        assert(ok_dashes(s[i - 2], s[i - 1]));
    }
    lemma_without_beside_pairs(s, '-', ':', |l: char, r: char| ok_colons(l, r), n);
    lemma_without_beside_count(s, '-', ':', ':', n);
    assert(s.take(n) == s);
    if n > 0 {
        lemma_without_beside_first(s, '-', ':', n);
    }
}

/// Fifth rule: the dashes beside a `_` go.
pub proof fn lemma_rule_underscore_dashes(s: Seq<char>)
    requires
        tidy(s, |l: char, r: char| ok_colons(l, r)),
    ensures
        tidy(without_beside(s, '-', '_'), |l: char, r: char| ok_unders(l, r)),
{
    let n = s.len() as int;
    assert forall|i: int| 0 < i < s.len() implies !(s[i - 1] == '-' && #[trigger] s[i] == '-') by {
        assert(ok_colons(s[i - 1], s[i]));
    }
    assert forall|i: int|
        0 < i < s.len() && stays(s, '-', '_', i - 1) && stays(s, '-', '_', i) implies ok_unders(
        s[i - 1],
        #[trigger] s[i],
    ) by {
        assert(ok_colons(s[i - 1], s[i]));
    }
    assert forall|i: int|
        1 < i < s.len() && !stays(s, '-', '_', i - 1) && stays(s, '-', '_', i) implies ok_unders(
        s[i - 2],
        #[trigger] s[i],
    ) by {
        assert(ok_colons(s[i - 1], s[i]));
        assert(ok_colons(s[i - 2], s[i - 1]));
    }
    lemma_without_beside_pairs(s, '-', '_', |l: char, r: char| ok_unders(l, r), n);
    lemma_without_beside_count(s, '-', '_', ':', n);
    assert(s.take(n) == s);
    if n > 0 {
        lemma_without_beside_first(s, '-', '_', n);
    }
}

/// Sixth rule: the colons at the two ends go, and what then stands at an
/// end is neither a `-` nor a `:`.
pub proof fn lemma_rule_strip_colons(s: Seq<char>)
    requires
        tidy(s, |l: char, r: char| ok_unders(l, r)),
    ensures
        tidy(strip_ends(s, ':'), |l: char, r: char| ok_unders(l, r)),
        strip_ends(s, ':').len() > 0 ==> end_ok(strip_ends(s, ':').first()) && end_ok(
            strip_ends(s, ':').last(),
        ),
{
    let r = lemma_strip_ends(s, ':');
    let t = s.subrange(r.0, r.1);
    lemma_stretch(s, |l: char, r: char| ok_unders(l, r), r.0, r.1);
    if t.len() > 0 {
        assert(t.first() == s[r.0] && t.last() == s[r.1 - 1]);
        if r.0 > 0 {
            assert(s[r.0 - 1] == ':');
            assert(ok_unders(s[r.0 - 1], s[r.0]));
        }
        if r.1 < s.len() {
            assert(s[r.1] == ':');
            assert(ok_unders(s[r.1 - 1], s[r.1]));
        }
    }
}

/// The six rules together.
pub proof fn lemma_collapsed_tidy(s: Seq<char>)
    requires
        each_pair(s, |l: char, r: char| ok_placed(l, r)),
        count(s, ':') <= 1,
    ensures
        tidy(collapsed(s), |l: char, r: char| ok_unders(l, r)),
        collapsed(s).len() > 0 ==> end_ok(collapsed(s).first()) && end_ok(collapsed(s).last()),
{
    let a = strip_ends(s, '-');
    lemma_rule_strip_dashes(s);
    let b = squeezed(a, '-');
    lemma_rule_squeeze_dashes(a);
    lemma_rule_squeeze_colons(b);
    let d = without_beside(b, '-', ':');
    lemma_rule_colon_dashes(b);
    let e = without_beside(d, '-', '_');
    lemma_rule_underscore_dashes(d);
    lemma_rule_strip_colons(e);
}

/// Once the rules have run, taking off the default category leaves a name
/// in shape.
pub proof fn lemma_stripped_default_shaped(s: Seq<char>)
    requires
        tidy(s, |l: char, r: char| ok_unders(l, r)),
        s.len() > 0 ==> end_ok(s.first()) && end_ok(s.last()),
    ensures
        shaped(stripped_default(s)),
{
    reveal_strlit("_default:");
    let h = stripped_default(s);
    let n = DEFAULT_CATEGORY@.len() as int;
    lemma_at_most_once(s, ':');
    if has_default_prefix(s) {
        assert(s.subrange(0, n)[n - 1] == ':');
        assert(s[n - 1] == ':');
        assert(h == s.subrange(n, s.len() as int));
        lemma_stretch(s, |l: char, r: char| ok_unders(l, r), n, s.len() as int);
        assert forall|i: int| 0 <= i < h.len() implies h[i] != ':' by {
            assert(!(s[n - 1] == ':' && s[n + i] == ':'));
        }
        if h.len() > 0 {
            assert(ok_unders(s[n - 1], s[n]));
            assert(h.first() == s[n]);
            assert(h.last() == s.last());
        }
        if has_default_prefix(h) {
            assert(h.subrange(0, n)[n - 1] == ':');
        }
    }
    lemma_at_most_once(h, ':');
    assert forall|i: int| 0 < i < h.len() implies pair_ok(h[i - 1], #[trigger] h[i]) by {
        assert(ok_unders(h[i - 1], h[i]));
        assert(!(h[i - 1] == ':' && h[i] == ':'));
    }
}

} // verus!
