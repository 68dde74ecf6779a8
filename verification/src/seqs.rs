//! Facts about sequences that the filter, the sort and the pager share.

use vstd::prelude::*;

verus! {

/// `at` lists, in increasing order, positions of `s` whose items are the
/// items of `sub`, in order.
pub open spec fn embeds_via<A>(sub: Seq<A>, s: Seq<A>, at: Seq<int>) -> bool {
    &&& at.len() == sub.len()
    &&& forall|k: int| 0 <= k < at.len() ==> 0 <= #[trigger] at[k] < s.len() && sub[k] == s[at[k]]
    &&& forall|j: int, k: int| 0 <= j < k < at.len() ==> #[trigger] at[j] < #[trigger] at[k]
}

/// `sub` is made of items of `s`, each taken at most once, in the order in
/// which they stand in `s`.
pub open spec fn is_subsequence<A>(sub: Seq<A>, s: Seq<A>) -> bool {
    exists|at: Seq<int>| embeds_via(sub, s, at)
}

/// A filtered sequence is a subsequence of the unfiltered one.
pub proof fn lemma_filter_is_subsequence<A>(s: Seq<A>, pred: spec_fn(A) -> bool)
    ensures
        is_subsequence(s.filter(pred), s),
    decreases s.len(),
{
    reveal(Seq::filter);
    if s.len() == 0 {
        assert(embeds_via(s.filter(pred), s, Seq::<int>::empty()));
    } else {
        let init = s.drop_last();
        lemma_filter_is_subsequence(init, pred);
        let at = choose|at: Seq<int>| embeds_via(init.filter(pred), init, at);
        if pred(s.last()) {
            let at2 = at.push(s.len() - 1);
            assert(embeds_via(s.filter(pred), s, at2));
        } else {
            assert(embeds_via(s.filter(pred), s, at));
        }
    }
}

/// Filtering by a predicate that every item meets changes nothing.
pub proof fn lemma_filter_keeps_all<A>(s: Seq<A>, pred: spec_fn(A) -> bool)
    requires
        forall|i: int| 0 <= i < s.len() ==> pred(#[trigger] s[i]),
    ensures
        s.filter(pred) == s,
    decreases s.len(),
{
    reveal(Seq::filter);
    if s.len() > 0 {
        lemma_filter_keeps_all(s.drop_last(), pred);
        assert(s.drop_last().push(s.last()) =~= s);
    }
}

/// An item stands in a filtered sequence exactly if it stands in the
/// unfiltered one and meets the predicate.
pub proof fn lemma_filter_membership<A>(s: Seq<A>, pred: spec_fn(A) -> bool, x: A)
    ensures
        s.filter(pred).contains(x) <==> s.contains(x) && pred(x),
    decreases s.len(),
{
    reveal(Seq::filter);
    if s.len() > 0 {
        let init = s.drop_last();
        lemma_filter_membership(init, pred, x);
        assert(init.push(s.last()) =~= s);
        if s.contains(x) {
            let i = choose|i: int| 0 <= i < s.len() && s[i] == x;
            if i < s.len() - 1 {
                assert(init[i] == x);
            }
        }
        if init.contains(x) {
            let i = choose|i: int| 0 <= i < init.len() && init[i] == x;
            assert(s[i] == x);
        }
        if pred(s.last()) {
            let kept = init.filter(pred);
            assert(kept.push(s.last())[kept.len() as int] == s.last());
            if kept.contains(x) {
                let i = choose|i: int| 0 <= i < kept.len() && kept[i] == x;
                assert(kept.push(s.last())[i] == x);
            }
        }
    }
}

/// Filtering by a predicate that no item meets leaves nothing.
pub proof fn lemma_filter_keeps_none<A>(s: Seq<A>, pred: spec_fn(A) -> bool)
    requires
        forall|i: int| 0 <= i < s.len() ==> !pred(#[trigger] s[i]),
    ensures
        s.filter(pred) == Seq::<A>::empty(),
    decreases s.len(),
{
    reveal(Seq::filter);
    if s.len() > 0 {
        lemma_filter_keeps_none(s.drop_last(), pred);
    }
}

/// Filtering a sequence into which `x` was inserted at `at`: the items in
/// front of `at` that are kept, then `x` if it is kept, then the items
/// behind that are kept.
pub proof fn lemma_filter_insert<A>(s: Seq<A>, at: int, x: A, pred: spec_fn(A) -> bool)
    requires
        0 <= at <= s.len(),
    ensures
        s.insert(at, x).filter(pred) == s.take(at).filter(pred) + (if pred(x) {
            seq![x]
        } else {
            Seq::<A>::empty()
        }) + s.skip(at).filter(pred),
        s.filter(pred) == s.take(at).filter(pred) + s.skip(at).filter(pred),
{
    reveal(Seq::filter);
    let front = s.take(at);
    let back = s.skip(at);
    assert(s.insert(at, x) =~= front.push(x) + back);
    assert(front + back =~= s);
    Seq::filter_distributes_over_add(front.push(x), back, pred);
    Seq::filter_distributes_over_add(front, back, pred);
    front.lemma_filter_push(x, pred);
    if pred(x) {
        assert(front.filter(pred).push(x) =~= front.filter(pred) + seq![x]);
    } else {
        assert(front.filter(pred) + Seq::<A>::empty() =~= front.filter(pred));
    }
}

} // verus!
