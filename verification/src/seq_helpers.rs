//! Counting and first-match helpers over sequences, with the lemmas the
//! operation proofs need when one element is appended, replaced or removed.

use vstd::prelude::*;

verus! {

/// How many elements of `s` satisfy `f`.
pub open spec fn count_by<T>(s: Seq<T>, f: spec_fn(T) -> bool) -> nat
    decreases s.len(),
{
    if s.len() == 0 {
        0
    } else {
        count_by(s.drop_last(), f) + if f(s.last()) {
            1nat
        } else {
            0nat
        }
    }
}

/// Index of the first element of `s` satisfying `f`, or -1 if none does.
pub open spec fn find_by<T>(s: Seq<T>, f: spec_fn(T) -> bool) -> int
    decreases s.len(),
{
    if s.len() == 0 {
        -1
    } else if f(s[0]) {
        0
    } else {
        let r = find_by(s.skip(1), f);
        if r == -1 {
            -1
        } else {
            r + 1
        }
    }
}

pub proof fn lemma_count_by_le_len<T>(s: Seq<T>, f: spec_fn(T) -> bool)
    ensures
        count_by(s, f) <= s.len(),
    decreases s.len(),
{
    if s.len() > 0 {
        lemma_count_by_le_len(s.drop_last(), f);
    }
}

pub proof fn lemma_count_by_push<T>(s: Seq<T>, v: T, f: spec_fn(T) -> bool)
    ensures
        count_by(s.push(v), f) == count_by(s, f) + if f(v) {
            1nat
        } else {
            0nat
        },
{
    assert(s.push(v).drop_last() =~= s);
}


/// A sequence with no match counts zero.
pub proof fn lemma_count_by_none<T>(s: Seq<T>, f: spec_fn(T) -> bool)
    requires
        forall|k: int| 0 <= k < s.len() ==> !f(#[trigger] s[k]),
    ensures
        count_by(s, f) == 0,
    decreases s.len(),
{
    if s.len() > 0 {
        lemma_count_by_none(s.drop_last(), f);
    }
}

/// If nothing before `i` satisfies `f` and `s[i]` does, then `i` is the
/// first match.
pub proof fn lemma_find_by_is_first<T>(s: Seq<T>, f: spec_fn(T) -> bool, i: int)
    requires
        0 <= i < s.len(),
        f(s[i]),
        forall|k: int| 0 <= k < i ==> !f(#[trigger] s[k]),
    ensures
        find_by(s, f) == i,
    decreases s.len(),
{
    if i > 0 {
        assert(!f(s[0]));
        lemma_find_by_is_first(s.skip(1), f, i - 1);
    }
}


/// A witness guarantees a first match exists.
pub proof fn lemma_find_by_found<T>(s: Seq<T>, f: spec_fn(T) -> bool, i: int)
    requires
        0 <= i < s.len(),
        f(s[i]),
    ensures
        0 <= find_by(s, f),
    decreases s.len(),
{
    if !f(s[0]) {
        assert(s.skip(1)[i - 1] == s[i]);
        lemma_find_by_found(s.skip(1), f, i - 1);
    }
}

/// If nothing in `s` satisfies `f`, the first match is -1.
pub proof fn lemma_find_by_none<T>(s: Seq<T>, f: spec_fn(T) -> bool)
    requires
        forall|k: int| 0 <= k < s.len() ==> !f(#[trigger] s[k]),
    ensures
        find_by(s, f) == -1,
    decreases s.len(),
{
    if s.len() > 0 {
        lemma_find_by_none(s.skip(1), f);
    }
}

/// What holds of the first match when there is one.
pub proof fn lemma_find_by_properties<T>(s: Seq<T>, f: spec_fn(T) -> bool)
    ensures
        find_by(s, f) == -1 || (0 <= find_by(s, f) < s.len() && f(s[find_by(s, f)]) && forall|
            k: int,
        | 0 <= k < find_by(s, f) ==> !f(#[trigger] s[k])),
    decreases s.len(),
{
    if s.len() > 0 && !f(s[0]) {
        lemma_find_by_properties(s.skip(1), f);
        let t = s.skip(1);
        assert(forall|k: int| 1 <= k < s.len() ==> #[trigger] s[k] == t[k - 1]);
    }
}

} // verus!
