//! Facts about filtered and ascending sequences.

use vstd::prelude::*;

verus! {

/// Nothing is left of an empty sequence after filtering.
pub proof fn lemma_filter_empty<T>(keep: spec_fn(T) -> bool)
    ensures
        Seq::<T>::empty().filter(keep) == Seq::<T>::empty(),
{
    reveal(Seq::filter);
}

/// Filtering a sequence that ends in `last` gives the filter of the front
/// part, followed by `last` where it passes.
pub proof fn lemma_filter_push<T>(front: Seq<T>, last: T, keep: spec_fn(T) -> bool)
    ensures
        front.push(last).filter(keep) == if keep(last) {
            front.filter(keep).push(last)
        } else {
            front.filter(keep)
        },
{
    reveal(Seq::filter);
    assert(front.push(last).drop_last() =~= front);
}

/// What passes a filter was in the sequence and satisfies the test, and
/// the other way round.
pub proof fn lemma_filter_contains<T>(s: Seq<T>, keep: spec_fn(T) -> bool, x: T)
    ensures
        s.filter(keep).contains(x) <==> s.contains(x) && keep(x),
    decreases s.len(),
{
    reveal(Seq::filter);
    if s.len() > 0 {
        let front = s.drop_last();
        lemma_filter_contains(front, keep, x);
        assert(s =~= front.push(s.last()));
        lemma_filter_push(front, s.last(), keep);
        if s.contains(x) && keep(x) {
            let i = choose|i: int| 0 <= i < s.len() && s[i] == x;
            if i < s.len() - 1 {
                assert(front[i] == x);
                assert(front.contains(x));
                let j = choose|j: int|
                    0 <= j < front.filter(keep).len() && front.filter(keep)[j] == x;
                assert(s.filter(keep)[j] == x);
            } else {
                assert(s.filter(keep).last() == x);
            }
        }
        if s.filter(keep).contains(x) {
            let j = choose|j: int| 0 <= j < s.filter(keep).len() && s.filter(keep)[j] == x;
            if keep(s.last()) && j == s.filter(keep).len() - 1 {
                assert(s[s.len() - 1] == x);
            } else {
                assert(front.filter(keep)[j] == x);
                assert(front.filter(keep).contains(x));
                let i = choose|i: int| 0 <= i < front.len() && front[i] == x;
                assert(s[i] == x);
            }
        }
    }
}

/// Whether the numbers of a sequence go up from each to the next.
pub open spec fn ascending(s: Seq<u64>) -> bool {
    forall|i: int, j: int| 0 <= i < j < s.len() ==> s[i] < s[j]
}

/// What is left of an ascending sequence after filtering is ascending.
pub proof fn lemma_filter_ascending(s: Seq<u64>, keep: spec_fn(u64) -> bool)
    requires
        ascending(s),
    ensures
        ascending(s.filter(keep)),
    decreases s.len(),
{
    reveal(Seq::filter);
    if s.len() > 0 {
        let front = s.drop_last();
        lemma_filter_ascending(front, keep);
        assert(s =~= front.push(s.last()));
        lemma_filter_push(front, s.last(), keep);
        if keep(s.last()) {
            let kept = front.filter(keep);
            assert forall|i: int, j: int| 0 <= i < j < kept.len() + 1 implies kept.push(
                s.last(),
            )[i] < kept.push(s.last())[j] by {
                if j == kept.len() {
                    assert(kept.contains(kept[i]));
                    lemma_filter_contains(front, keep, kept[i]);
                    let k = choose|k: int| 0 <= k < front.len() && front[k] == kept[i];
                    assert(s[k] < s[s.len() - 1]);
                }
            }
        }
    }
}

} // verus!
