//! Facts about filtered sequences that the stores share.

use vstd::prelude::*;

verus! {

/// Filtering one more element either appends it or changes nothing.
pub proof fn lemma_filter_take_step<A>(s: Seq<A>, p: spec_fn(A) -> bool, k: int)
    requires
        0 <= k < s.len(),
    ensures
        s.take(k + 1).filter(p) == if p(s[k]) {
            s.take(k).filter(p).push(s[k])
        } else {
            s.take(k).filter(p)
        },
{
    assert(s.take(k + 1) =~= s.take(k).push(s[k]));
    s.take(k).lemma_filter_push(s[k], p);
}

/// Every element of a filtered sequence comes from the unfiltered one, later
/// elements from later positions, and all of them satisfy the predicate.
pub proof fn lemma_filter_origin<A>(s: Seq<A>, p: spec_fn(A) -> bool)
    ensures
        s.filter(p).len() <= s.len(),
        forall|i: int|
            0 <= i < s.filter(p).len() ==> p(#[trigger] s.filter(p)[i]) && s.contains(
                s.filter(p)[i],
            ),
        forall|i: int, j: int|
            0 <= i < j < s.filter(p).len() ==> exists|a: int, b: int|
                0 <= a < b < s.len() && s[a] == #[trigger] s.filter(p)[i] && s[b]
                    == #[trigger] s.filter(p)[j],
    decreases s.len(),
{
    reveal(Seq::filter);
    if s.len() > 0 {
        let t = s.drop_last();
        lemma_filter_origin(t, p);
        let f = s.filter(p);
        assert forall|i: int| 0 <= i < f.len() implies p(#[trigger] f[i]) && s.contains(f[i]) by {
            if i < t.filter(p).len() {
                assert(t.contains(t.filter(p)[i]));
                let a = choose|a: int| 0 <= a < t.len() && t[a] == t.filter(p)[i];
                assert(s[a] == f[i]);
            } else {
                assert(s[s.len() - 1] == f[i]);
            }
        }
        assert forall|i: int, j: int| 0 <= i < j < f.len() implies exists|a: int, b: int|
            0 <= a < b < s.len() && s[a] == #[trigger] f[i] && s[b] == #[trigger] f[j] by {
            if j < t.filter(p).len() {
                let (a, b) = choose|a: int, b: int|
                    0 <= a < b < t.len() && t[a] == t.filter(p)[i] && t[b] == t.filter(p)[j];
                assert(s[a] == f[i] && s[b] == f[j]);
            } else {
                assert(t.contains(t.filter(p)[i]));
                let a = choose|a: int| 0 <= a < t.len() && t[a] == t.filter(p)[i];
                assert(s[a] == f[i] && s[s.len() - 1] == f[j]);
            }
        }
    }
}

/// A sequence whose elements all satisfy the predicate is its own filter.
pub proof fn lemma_filter_all<A>(s: Seq<A>, p: spec_fn(A) -> bool)
    requires
        forall|i: int| 0 <= i < s.len() ==> p(#[trigger] s[i]),
    ensures
        s.filter(p) == s,
    decreases s.len(),
{
    reveal(Seq::filter);
    if s.len() > 0 {
        let t = s.drop_last();
        assert forall|i: int| 0 <= i < t.len() implies p(#[trigger] t[i]) by {
            assert(t[i] == s[i]);
        }
        lemma_filter_all(t, p);
        assert(s.filter(p) =~= s);
    }
}

/// An element that satisfies the predicate survives filtering.
pub proof fn lemma_filter_keeps<A>(s: Seq<A>, p: spec_fn(A) -> bool, i: int)
    requires
        0 <= i < s.len(),
        p(s[i]),
    ensures
        s.filter(p).contains(s[i]),
    decreases s.len(),
{
    reveal(Seq::filter);
    let t = s.drop_last();
    if i == s.len() - 1 {
        assert(s.filter(p).last() == s[i]);
    } else {
        lemma_filter_keeps(t, p, i);
        let j = choose|j: int| 0 <= j < t.filter(p).len() && t.filter(p)[j] == t[i];
        assert(s.filter(p)[j] == s[i]);
    }
}

} // verus!
