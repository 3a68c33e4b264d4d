//! Where one text occurs in another, and how the places add up when texts
//! are joined.

use vstd::prelude::*;

verus! {

/// Whether `pattern` stands in `text` at the place `i`.
pub open spec fn occurs_at(text: Seq<char>, pattern: Seq<char>, i: int) -> bool {
    &&& 0 <= i
    &&& i + pattern.len() <= text.len()
    &&& text.subrange(i, i + pattern.len()) == pattern
}

/// Whether `pattern` stands nowhere in `text`.
pub open spec fn free_of(text: Seq<char>, pattern: Seq<char>) -> bool {
    forall|i: int| !occurs_at(text, pattern, i)
}

/// The places at which `pattern` stands in `text`.
pub open spec fn occurrences(text: Seq<char>, pattern: Seq<char>) -> Set<int> {
    Set::new(|i: int| occurs_at(text, pattern, i))
}

/// Whether no occurrence of `pattern` in `a + b` runs across the seam: every
/// one lies in `a` or in `b`.
pub open spec fn clean_seam(a: Seq<char>, b: Seq<char>, pattern: Seq<char>) -> bool {
    forall|i: int| i < a.len() < i + pattern.len() ==> !occurs_at(a + b, pattern, i)
}

/// Across a clean seam the occurrences in `a + b` are those in `a` and those
/// in `b`, the latter moved by the length of `a`.
pub proof fn lemma_occurs_in_joined(a: Seq<char>, b: Seq<char>, pattern: Seq<char>)
    requires
        pattern.len() > 0,
        clean_seam(a, b, pattern),
    ensures
        forall|i: int| #[trigger]
            occurs_at(a + b, pattern, i) <==> occurs_at(a, pattern, i) || occurs_at(
                b,
                pattern,
                i - a.len(),
            ),
{
    assert forall|i: int| #[trigger]
        occurs_at(a + b, pattern, i) <==> occurs_at(a, pattern, i) || occurs_at(
            b,
            pattern,
            i - a.len(),
        ) by {
        let n = pattern.len() as int;
        if 0 <= i && i + n <= a.len() {
            assert((a + b).subrange(i, i + n) =~= a.subrange(i, i + n));
        } else if a.len() <= i && i + n <= a.len() + b.len() {
            assert((a + b).subrange(i, i + n) =~= b.subrange(i - a.len(), i - a.len() + n));
        }
    }
}

/// A seam is clean where the text behind it starts with a character that
/// the pattern holds at most as its first.
pub proof fn lemma_seam_by_next(a: Seq<char>, b: Seq<char>, pattern: Seq<char>)
    requires
        b.len() > 0,
        forall|j: int| 1 <= j < pattern.len() ==> pattern[j] != b[0],
    ensures
        clean_seam(a, b, pattern),
{
    assert forall|i: int| i < a.len() < i + pattern.len() implies !occurs_at(a + b, pattern, i) by {
        if occurs_at(a + b, pattern, i) {
            let j = a.len() - i;
            let part = (a + b).subrange(i, i + pattern.len());
            assert(part[j] == (a + b)[i + j]);
            assert((a + b)[a.len() as int] == b[0]);
        }
    }
}

/// A seam is clean where the text behind it starts with two characters that
/// the pattern nowhere holds one after the other, and cannot end between.
pub proof fn lemma_seam_by_next_two(a: Seq<char>, b: Seq<char>, pattern: Seq<char>)
    requires
        b.len() > 1,
        forall|j: int|
            1 <= j < pattern.len() && #[trigger] pattern[j] == b[0] ==> j + 1 < pattern.len()
                && pattern[j + 1] != b[1],
    ensures
        clean_seam(a, b, pattern),
{
    assert forall|i: int| i < a.len() < i + pattern.len() implies !occurs_at(a + b, pattern, i) by {
        if occurs_at(a + b, pattern, i) {
            let j = a.len() - i;
            let part = (a + b).subrange(i, i + pattern.len());
            assert(part[j] == (a + b)[i + j]);
            assert((a + b)[a.len() as int] == b[0]);
            assert(part[j + 1] == (a + b)[i + j + 1]);
            assert((a + b)[a.len() as int + 1] == b[1]);
        }
    }
}

/// A seam is clean where the text in front of it ends in a character that
/// the pattern holds at most as its last.
pub proof fn lemma_seam_by_previous(a: Seq<char>, b: Seq<char>, pattern: Seq<char>)
    requires
        a.len() > 0,
        forall|j: int| 0 <= j < pattern.len() - 1 ==> pattern[j] != a.last(),
    ensures
        clean_seam(a, b, pattern),
{
    assert forall|i: int| i < a.len() < i + pattern.len() implies !occurs_at(a + b, pattern, i) by {
        if occurs_at(a + b, pattern, i) {
            let j = a.len() - 1 - i;
            let part = (a + b).subrange(i, i + pattern.len());
            assert(part[j] == (a + b)[i + j]);
            assert((a + b)[a.len() - 1] == a.last());
        }
    }
}

} // verus!
