//! What holds of the normal form of every text, proved from the definitions
//! of the stages.

use crate::category::merged;
use crate::class::{allowed_flags, is_allowed, is_word};
use crate::collapse::{collapsed, squeezed, strip_ends, without_beside};
use crate::collapse_facts::{
    each_char, each_pair, lemma_squeezed_chars, lemma_squeezed_same, lemma_strip_ends,
    lemma_without_beside_chars, lemma_without_beside_same, stays,
};
use crate::filter::filtered;
use crate::normal::{in_normal_form, normal_form, preprocessed, slug, unslashed};
use crate::occurrence::lemma_at_most_once;
use crate::shape::{
    has_default_prefix, is_separator, pair_ok, shaped, stripped_default, DEFAULT_CATEGORY,
};
use crate::slug_facts::{
    lemma_collapsed_tidy, lemma_filtered_chars, lemma_filtered_same, lemma_merged_once,
    lemma_merged_same, lemma_rule_squeeze_colons, lemma_stripped_default_shaped,
    lemma_underscored_placed, lemma_underscored_same, ok_placed,
};
use crate::underscore::underscored;
use crate::unicode::{folded, lowercase_of, nfkc, trimmed};
use vstd::prelude::*;

verus! {

/// `c` is a character that case folding produces.
pub open spec fn is_lowercase_image(c: char) -> bool {
    exists|origin: char| lowercase_of(origin).contains(c)
}

/// Whatever is marked as allowed, the rewriting stages end in a name whose
/// separators are in shape.
pub proof fn lemma_slug_shaped(s: Seq<char>, keep: Seq<bool>)
    requires
        keep.len() == s.len(),
    ensures
        shaped(slug(s, keep)),
{
    let m = merged(filtered(s, keep));
    lemma_merged_once(filtered(s, keep));
    let u = underscored(m);
    lemma_underscored_placed(m);
    lemma_collapsed_tidy(u);
    lemma_stripped_default_shaped(collapsed(u));
}

/// The rewriting stages add nothing but dashes: a property that `-` has,
/// and every character marked as allowed, holds of every character of the
/// result.
pub proof fn lemma_slug_chars(s: Seq<char>, keep: Seq<bool>, p: spec_fn(char) -> bool)
    requires
        keep.len() == s.len(),
        forall|j: int| 0 <= j < s.len() && keep[j] ==> p(#[trigger] s[j]),
        p('-'),
    ensures
        each_char(slug(s, keep), p),
{
    let f = filtered(s, keep);
    lemma_filtered_chars(s, keep, p);
    let m = merged(f);
    assert(each_char(m, p)) by {
        assert forall|i: int| 0 <= i < m.len() implies p(#[trigger] m[i]) by {
            assert(p(f[i]));
        }
    }
    let u = underscored(m);
    assert(each_char(u, p)) by {
        assert forall|i: int| 0 <= i < u.len() implies p(#[trigger] u[i]) by {
            assert(p(m[i]));
        }
    }
    let ra = lemma_strip_ends(u, '-');
    let a = strip_ends(u, '-');
    assert(each_char(a, p)) by {
        assert forall|i: int| 0 <= i < a.len() implies p(#[trigger] a[i]) by {
            assert(p(u[ra.0 + i]));
        }
    }
    let b = squeezed(a, '-');
    lemma_squeezed_chars(a, '-', p);
    let c = squeezed(b, ':');
    lemma_squeezed_chars(b, ':', p);
    let d = without_beside(c, '-', ':');
    lemma_without_beside_chars(c, '-', ':', p, c.len() as int);
    let e = without_beside(d, '-', '_');
    lemma_without_beside_chars(d, '-', '_', p, d.len() as int);
    let rg = lemma_strip_ends(e, ':');
    let g = strip_ends(e, ':');
    assert(each_char(g, p)) by {
        assert forall|i: int| 0 <= i < g.len() implies p(#[trigger] g[i]) by {
            assert(p(e[rg.0 + i]));
        }
    }
    let h = stripped_default(g);
    assert(each_char(h, p)) by {
        assert forall|i: int| 0 <= i < h.len() implies p(#[trigger] h[i]) by {
            if has_default_prefix(g) {
                assert(p(g[DEFAULT_CATEGORY@.len() + i]));
            } else {
                assert(p(g[i]));
            }
        }
    }
}

/// The rewriting stages leave alone a text of allowed characters whose
/// separators are in shape.
pub proof fn lemma_slug_fixes_shaped(s: Seq<char>, keep: Seq<bool>)
    requires
        keep.len() == s.len(),
        forall|j: int| 0 <= j < keep.len() ==> keep[j],
        shaped(s),
    ensures
        slug(s, keep) == s,
{
    lemma_filtered_same(s, keep);
    lemma_at_most_once(s, ':');
    lemma_merged_same(s);
    assert(each_pair(s, |l: char, r: char| ok_placed(l, r))) by {
        assert forall|i: int| 0 < i < s.len() implies ok_placed(s[i - 1], #[trigger] s[i]) by {
            assert(pair_ok(s[i - 1], s[i]));
        }
    }
    lemma_underscored_same(s);
    assert(strip_ends(s, '-') == s);
    assert forall|i: int| 0 < i < s.len() implies !(s[i - 1] == '-' && #[trigger] s[i] == '-') by {
        assert(pair_ok(s[i - 1], s[i]));
    }
    lemma_squeezed_same(s, '-');
    lemma_rule_squeeze_colons(s);
    assert forall|i: int| 0 <= i < s.len() implies #[trigger] stays(s, '-', ':', i) by {
        if i > 0 {
            assert(pair_ok(s[i - 1], s[i]));
        }
        if i + 1 < s.len() {
            assert(pair_ok(s[i], s[i + 1]));
        }
    }
    lemma_without_beside_same(s, '-', ':', s.len() as int);
    assert forall|i: int| 0 <= i < s.len() implies #[trigger] stays(s, '-', '_', i) by {
        if i > 0 {
            assert(pair_ok(s[i - 1], s[i]));
        }
        if i + 1 < s.len() {
            assert(pair_ok(s[i], s[i + 1]));
        }
    }
    lemma_without_beside_same(s, '-', '_', s.len() as int);
    assert(s.take(s.len() as int) == s);
    assert(strip_ends(s, ':') == s);
}

/// Every character of folded text is one that case folding produces.
pub proof fn lemma_folded_images(s: Seq<char>)
    ensures
        each_char(folded(s), |c: char| is_lowercase_image(c)),
    decreases s.len(),
{
    if s.len() > 0 {
        lemma_folded_images(s.drop_last());
        let head = folded(s.drop_last());
        let tail = lowercase_of(s.last());
        assert forall|i: int| 0 <= i < folded(s).len() implies is_lowercase_image(
            #[trigger] folded(s)[i],
        ) by {
            if i >= head.len() {
                assert(tail[i - head.len()] == folded(s)[i]);
                assert(lowercase_of(s.last()).contains(folded(s)[i]));
            } else {
                assert(head[i] == folded(s)[i]);
            }
        }
    }
}

/// The separators of a normal form are in shape: no separator touches one
/// it may not touch, no `-` or `:` stands at an end, a `_` only opens the
/// name or follows the `:`, at most one `:` is left, and the default
/// category is not spelled out.
pub proof fn lemma_normal_form_shaped(x: Seq<char>)
    ensures
        shaped(normal_form(x)),
{
    let t = preprocessed(x);
    lemma_slug_shaped(t, allowed_flags(t));
}

/// Character-class closure: every character of a normal form is `-`, `:`,
/// `_`, or a letter or number that case folding produced.
pub proof fn lemma_normal_form_chars(x: Seq<char>)
    ensures
        forall|i: int|
            0 <= i < normal_form(x).len() ==> is_separator(#[trigger] normal_form(x)[i]) || (
            is_word(normal_form(x)[i]) && is_lowercase_image(normal_form(x)[i])),
{
    let t = preprocessed(x);
    let p = |c: char| is_separator(c) || (is_word(c) && is_lowercase_image(c));
    lemma_folded_images(nfkc(unslashed(trimmed(x))));
    assert forall|j: int| 0 <= j < t.len() && allowed_flags(t)[j] implies p(#[trigger] t[j]) by {
        assert(is_lowercase_image(t[j]));
    }
    lemma_slug_chars(t, allowed_flags(t), p);
    assert forall|i: int| 0 <= i < normal_form(x).len() implies is_separator(
        #[trigger] normal_form(x)[i],
    ) || (is_word(normal_form(x)[i]) && is_lowercase_image(normal_form(x)[i])) by {
        assert(p(normal_form(x)[i]));
    }
}

/// No-adjacency: a normal form holds none of `--`, `::`, `:-`, `-:`, `_-`, `-_`.
pub proof fn lemma_normal_form_no_adjacency(x: Seq<char>)
    ensures
        forall|i: int|
            #![trigger normal_form(x)[i]]
            0 < i < normal_form(x).len() ==> {
                let l = normal_form(x)[i - 1];
                let r = normal_form(x)[i];
                &&& !(l == '-' && r == '-')
                &&& !(l == ':' && r == ':')
                &&& !(l == ':' && r == '-')
                &&& !(l == '-' && r == ':')
                &&& !(l == '_' && r == '-')
                &&& !(l == '-' && r == '_')
            },
{
    lemma_normal_form_shaped(x);
    let y = normal_form(x);
    assert forall|i: int| #![trigger y[i]] 0 < i < y.len() implies {
        let l = y[i - 1];
        let r = y[i];
        &&& !(l == '-' && r == '-')
        &&& !(l == ':' && r == ':')
        &&& !(l == ':' && r == '-')
        &&& !(l == '-' && r == ':')
        &&& !(l == '_' && r == '-')
        &&& !(l == '-' && r == '_')
    } by {
        assert(pair_ok(y[i - 1], y[i]));
    }
}

/// Boundary: a normal form neither starts nor ends with `-` or `:`.
pub proof fn lemma_normal_form_boundary(x: Seq<char>)
    ensures
        normal_form(x).len() > 0 ==> {
            &&& normal_form(x).first() != '-'
            &&& normal_form(x).first() != ':'
            &&& normal_form(x).last() != '-'
            &&& normal_form(x).last() != ':'
        },
{
    lemma_normal_form_shaped(x);
}

/// The rewriting stages are idempotent: run on their own result, with its
/// characters classified anew, they change nothing.
pub proof fn lemma_slug_idempotent(s: Seq<char>)
    ensures
        ({
            let y = slug(s, allowed_flags(s));
            slug(y, allowed_flags(y)) == y
        }),
{
    let y = slug(s, allowed_flags(s));
    lemma_slug_shaped(s, allowed_flags(s));
    lemma_slug_chars(s, allowed_flags(s), |c: char| is_allowed(c));
    assert forall|j: int| 0 <= j < allowed_flags(y).len() implies allowed_flags(y)[j] by {
        assert(is_allowed(y[j]));
    }
    lemma_slug_fixes_shaped(y, allowed_flags(y));
}

/// Predicate and pipeline agree: a text is in normal form exactly if
/// normalizing leaves it unchanged and the Unicode services alone leave it
/// unchanged too.
pub proof fn lemma_normal_iff_fixed(x: Seq<char>)
    ensures
        in_normal_form(x) <==> (normal_form(x) == x && preprocessed(x) == x),
{
    if in_normal_form(x) {
        assert forall|j: int| 0 <= j < allowed_flags(x).len() implies allowed_flags(x)[j] by {
            assert(is_allowed(x[j]));
        }
        lemma_slug_fixes_shaped(x, allowed_flags(x));
    }
    if normal_form(x) == x && preprocessed(x) == x {
        lemma_slug_shaped(x, allowed_flags(x));
        lemma_slug_chars(x, allowed_flags(x), |c: char| is_allowed(c));
        assert forall|i: int| 0 <= i < x.len() implies is_allowed(#[trigger] x[i]) by {
            assert(is_allowed(slug(x, allowed_flags(x))[i]));
        }
    }
}

/// A text in normal form is a fixed point of the pipeline.
pub proof fn lemma_normal_is_fixed(x: Seq<char>)
    requires
        in_normal_form(x),
    ensures
        normal_form(x) == x,
{
    lemma_normal_iff_fixed(x);
}

/// Idempotence: normalizing a normal form changes nothing, provided the
/// Unicode services leave the normal form as it is.
pub proof fn lemma_normalize_idempotent(x: Seq<char>)
    requires
        preprocessed(normal_form(x)) == normal_form(x),
    ensures
        normal_form(normal_form(x)) == normal_form(x),
        in_normal_form(normal_form(x)),
{
    lemma_slug_idempotent(preprocessed(x));
    lemma_normal_iff_fixed(normal_form(x));
}

} // verus!
