//! Facts about how often a character occurs in a text.

use crate::shape::count;
use vstd::prelude::*;

verus! {

/// `c` occurs at most once in `s`, said position by position.
pub open spec fn at_most_once(s: Seq<char>, c: char) -> bool {
    forall|i: int, j: int| 0 <= i < j < s.len() ==> !(s[i] == c && s[j] == c)
}

/// Appending one character adds one to the count of that character only.
pub proof fn lemma_count_push(s: Seq<char>, x: char, c: char)
    ensures
        count(s.push(x), c) == count(s, c) + if x == c {
            1nat
        } else {
            0nat
        },
{
    assert(s.push(x).drop_last() == s);
}

/// A character that occurs somewhere is counted.
pub proof fn lemma_count_positive(s: Seq<char>, c: char, i: int)
    requires
        0 <= i < s.len(),
        s[i] == c,
    ensures
        count(s, c) >= 1,
    decreases s.len(),
{
    if i < s.len() - 1 {
        lemma_count_positive(s.drop_last(), c, i);
    }
}

/// A character that occurs at two places is counted twice.
pub proof fn lemma_count_two(s: Seq<char>, c: char, i: int, j: int)
    requires
        0 <= i < j < s.len(),
        s[i] == c,
        s[j] == c,
    ensures
        count(s, c) >= 2,
    decreases s.len(),
{
    if j < s.len() - 1 {
        lemma_count_two(s.drop_last(), c, i, j);
    } else {
        lemma_count_positive(s.drop_last(), c, i);
    }
}

/// A character that is counted occurs somewhere.
pub proof fn lemma_count_zero(s: Seq<char>, c: char)
    requires
        forall|i: int| 0 <= i < s.len() ==> s[i] != c,
    ensures
        count(s, c) == 0,
    decreases s.len(),
{
    if s.len() > 0 {
        lemma_count_zero(s.drop_last(), c);
    }
}

/// The count is at most one exactly where no two positions hold the character.
pub proof fn lemma_at_most_once(s: Seq<char>, c: char)
    ensures
        at_most_once(s, c) <==> count(s, c) <= 1,
    decreases s.len(),
{
    if count(s, c) <= 1 {
        assert forall|i: int, j: int| 0 <= i < j < s.len() implies !(s[i] == c && s[j] == c) by {
            if s[i] == c && s[j] == c {
                lemma_count_two(s, c, i, j);
            }
        }
    }
    if at_most_once(s, c) && s.len() > 0 {
        let head = s.drop_last();
        assert(at_most_once(head, c)) by {
            assert forall|i: int, j: int| 0 <= i < j < head.len() implies !(head[i] == c
                && head[j] == c) by {
                assert(head[i] == s[i] && head[j] == s[j]);
            }
        }
        lemma_at_most_once(head, c);
        if s.last() == c {
            assert forall|i: int| 0 <= i < head.len() implies head[i] != c by {
                assert(head[i] == s[i]);
                assert(!(s[i] == c && s[s.len() - 1] == c));
            }
            lemma_count_zero(head, c);
        }
    }
}

} // verus!
