//! Literal substring search over the characters of a line.
//!
//! [`find_substring`] locates the first (leftmost) occurrence of a pattern's
//! raw text inside a line, counting positions in characters.  Its result is
//! pinned to the spec-level [`first_occurrence`], on which the rest of the
//! matching engine is built.

use vstd::prelude::*;
use vstd::string::StrSliceExecFns;

verus! {

/// `pat` occurs in `line` at position `i`: the next `pat.len()` characters
/// of `line`, starting at `i`, are exactly `pat`.
pub open spec fn occurs_at(line: Seq<char>, pat: Seq<char>, i: int) -> bool {
    &&& 0 <= i
    &&& i + pat.len() <= line.len()
    &&& forall|k: int| 0 <= k < pat.len() ==> line[i + k] == pat[k]
}

/// `line` contains `pat` as a literal substring.
pub open spec fn contains_pattern(line: Seq<char>, pat: Seq<char>) -> bool {
    exists|i: int| occurs_at(line, pat, i)
}

/// The first position at or after `i` where `pat` occurs in `line`, or `-1`
/// when there is no such position.
pub open spec fn first_occurrence_from(line: Seq<char>, pat: Seq<char>, i: int) -> int
    decreases line.len() - i,
{
    if i < 0 || i + pat.len() > line.len() {
        -1
    } else if occurs_at(line, pat, i) {
        i
    } else {
        first_occurrence_from(line, pat, i + 1)
    }
}

/// The first position where `pat` occurs in `line`, or `-1` when `line`
/// does not contain `pat`.
pub open spec fn first_occurrence(line: Seq<char>, pat: Seq<char>) -> int {
    first_occurrence_from(line, pat, 0)
}

/// `first_occurrence_from` reports `-1` exactly when `pat` occurs nowhere
/// at or after `i`; otherwise it reports the least occurrence at or after
/// `i`.
pub proof fn lemma_first_occurrence_from(line: Seq<char>, pat: Seq<char>, i: int)
    requires
        0 <= i,
    ensures
        first_occurrence_from(line, pat, i) == -1 ==> forall|j: int|
            i <= j ==> !occurs_at(line, pat, j),
        first_occurrence_from(line, pat, i) != -1 ==> {
            let f = first_occurrence_from(line, pat, i);
            &&& i <= f
            &&& occurs_at(line, pat, f)
            &&& forall|j: int| i <= j < f ==> !occurs_at(line, pat, j)
        },
    decreases line.len() - i,
{
    if i + pat.len() > line.len() {
        assert forall|j: int| i <= j implies !occurs_at(line, pat, j) by {
            assert(j + pat.len() >= i + pat.len());
        }
    } else if occurs_at(line, pat, i) {
    } else {
        lemma_first_occurrence_from(line, pat, i + 1);
    }
}

/// The first occurrence is an occurrence, and nothing to its left is one;
/// `-1` means `line` does not contain `pat` at all.
pub proof fn lemma_first_occurrence(line: Seq<char>, pat: Seq<char>)
    ensures
        contains_pattern(line, pat) <==> first_occurrence(line, pat) >= 0,
        first_occurrence(line, pat) >= 0 ==> {
            let f = first_occurrence(line, pat);
            &&& occurs_at(line, pat, f)
            &&& forall|j: int| 0 <= j < f ==> !occurs_at(line, pat, j)
        },
        first_occurrence(line, pat) < 0 ==> first_occurrence(line, pat) == -1,
{
    lemma_first_occurrence_from(line, pat, 0);
    if first_occurrence(line, pat) >= 0 {
        assert(occurs_at(line, pat, first_occurrence(line, pat)));
        assert(contains_pattern(line, pat));
    } else if contains_pattern(line, pat) {
        let w = choose|w: int| occurs_at(line, pat, w);
        assert(!occurs_at(line, pat, w));
        assert(false);
    }
}

/// A pattern that occurs at `i` is exactly the characters of `line` from
/// `i` to `i + pat.len()`.
pub proof fn lemma_occurs_at_subrange(line: Seq<char>, pat: Seq<char>, i: int)
    requires
        occurs_at(line, pat, i),
    ensures
        line.subrange(i, i + pat.len() as int) == pat,
{
    assert(line.subrange(i, i + pat.len() as int) =~= pat);
}

/// Find the first (leftmost) literal occurrence of `pat` in `line`,
/// counting positions in characters; `None` when `line` does not contain
/// `pat`.
pub fn find_substring(line: &str, pat: &str) -> (r: Option<usize>)
    ensures
        match r {
            Some(i) => i as int == first_occurrence(line@, pat@),
            None => first_occurrence(line@, pat@) == -1,
        },
{
    let n: usize = line.unicode_len();
    let m: usize = pat.unicode_len();
    if m > n {
        return None;
    }
    let mut i: usize = 0;
    while i <= n - m
        invariant
            m <= n,
            n == line@.len(),
            m == pat@.len(),
            i <= n - m + 1,
            first_occurrence(line@, pat@) == first_occurrence_from(line@, pat@, i as int),
        decreases n - m - i + 1,
    {
        let mut j: usize = 0;
        let mut hit = true;
        while hit && j < m
            invariant
                n == line@.len(),
                m == pat@.len(),
                i + m <= n,
                j <= m,
                hit ==> forall|k: int| 0 <= k < j ==> line@[i + k] == pat@[k],
                !hit ==> !occurs_at(line@, pat@, i as int),
            decreases m - j,
        {
            if line.get_char(i + j) != pat.get_char(j) {
                hit = false;
                assert(!occurs_at(line@, pat@, i as int));
            }
            j += 1;
        }
        if hit {
            assert(occurs_at(line@, pat@, i as int));
            return Some(i);
        }
        assert(m >= 1) by {
            if pat@.len() == 0 {
                assert(occurs_at(line@, pat@, i as int));
            }
        }
        assert(first_occurrence_from(line@, pat@, i as int) == first_occurrence_from(
            line@,
            pat@,
            i as int + 1,
        ));
        i += 1;
    }
    assert(first_occurrence_from(line@, pat@, i as int) == -1);
    None
}

} // verus!
