//! Facts about filtered sequences that the store's proofs share.

use vstd::prelude::*;

verus! {

/// Filtering one element more either appends that element or changes
/// nothing, depending on whether it passes.
pub proof fn lemma_filter_next<A>(s: Seq<A>, pred: spec_fn(A) -> bool, i: int)
    requires
        0 <= i < s.len(),
    ensures
        s.take(i + 1).filter(pred) == if pred(s[i]) {
            s.take(i).filter(pred).push(s[i])
        } else {
            s.take(i).filter(pred)
        },
{
    reveal(Seq::filter);
    assert(s.take(i + 1).drop_last() =~= s.take(i));
    assert(s.take(i + 1).last() == s[i]);
}

/// Filtering all of a sequence is filtering its full-length prefix.
pub proof fn lemma_filter_all<A>(s: Seq<A>, pred: spec_fn(A) -> bool)
    ensures
        s.take(s.len() as int).filter(pred) == s.filter(pred),
{
    assert(s.take(s.len() as int) =~= s);
}

/// Every element that a filter keeps passes it and comes from the sequence.
pub proof fn lemma_filter_members<A>(s: Seq<A>, pred: spec_fn(A) -> bool)
    ensures
        forall|k: int|
            0 <= k < s.filter(pred).len() ==> pred(#[trigger] s.filter(pred)[k]) && s.contains(
                s.filter(pred)[k],
            ),
        forall|i: int| 0 <= i < s.len() && pred(s[i]) ==> s.filter(pred).contains(#[trigger] s[i]),
        s.filter(pred).len() <= s.len(),
    decreases s.len(),
{
    reveal(Seq::filter);
    if s.len() > 0 {
        let rest = s.drop_last();
        lemma_filter_members(rest, pred);
        let kept = s.filter(pred);
        assert forall|k: int| 0 <= k < kept.len() implies pred(#[trigger] kept[k]) && s.contains(
            kept[k],
        ) by {
            if k < rest.filter(pred).len() {
                assert(kept[k] == rest.filter(pred)[k]);
                let at = choose|at: int| 0 <= at < rest.len() && rest[at] == kept[k];
                assert(s[at] == kept[k]);
            } else {
                assert(kept[k] == s.last());
                assert(s[s.len() - 1] == kept[k]);
            }
        }
        assert forall|i: int| 0 <= i < s.len() && pred(s[i]) implies kept.contains(
            #[trigger] s[i],
        ) by {
            if i < rest.len() {
                assert(rest[i] == s[i]);
                let at = choose|at: int|
                    0 <= at < rest.filter(pred).len() && rest.filter(pred)[at] == s[i];
                assert(kept[at] == s[i]);
            } else {
                assert(kept[kept.len() - 1] == s[i]);
            }
        }
    }
}

/// A relation that holds between every earlier and every later element of a
/// sequence still holds after filtering: a filter keeps the order.
pub proof fn lemma_filter_keeps_order<A>(
    s: Seq<A>,
    pred: spec_fn(A) -> bool,
    before: spec_fn(A, A) -> bool,
)
    requires
        forall|i: int, j: int| 0 <= i < j < s.len() ==> before(s[i], s[j]),
    ensures
        forall|i: int, j: int|
            0 <= i < j < s.filter(pred).len() ==> before(
                #[trigger] s.filter(pred)[i],
                #[trigger] s.filter(pred)[j],
            ),
    decreases s.len(),
{
    reveal(Seq::filter);
    if s.len() > 0 {
        let rest = s.drop_last();
        assert forall|i: int, j: int| 0 <= i < j < rest.len() implies before(rest[i], rest[j]) by {
            assert(rest[i] == s[i] && rest[j] == s[j]);
        }
        lemma_filter_keeps_order(rest, pred, before);
        lemma_filter_members(rest, pred);
        let kept = s.filter(pred);
        let head = rest.filter(pred);
        assert forall|i: int, j: int| 0 <= i < j < kept.len() implies before(
            #[trigger] kept[i],
            #[trigger] kept[j],
        ) by {
            if j < head.len() {
                assert(kept[i] == head[i] && kept[j] == head[j]);
            } else {
                assert(kept[j] == s.last());
                assert(kept[i] == head[i]);
                assert(rest.contains(head[i]));
                let at = choose|at: int| 0 <= at < rest.len() && rest[at] == head[i];
                assert(before(s[at], s[s.len() - 1]));
            }
        }
    }
}

/// A filter that rejects exactly the element at `i` removes that element.
pub proof fn lemma_filter_removes_one<A>(s: Seq<A>, pred: spec_fn(A) -> bool, i: int)
    requires
        0 <= i < s.len(),
        forall|j: int| 0 <= j < s.len() ==> (pred(#[trigger] s[j]) <==> j != i),
    ensures
        s.filter(pred) == s.remove(i),
    decreases s.len(),
{
    reveal(Seq::filter);
    let rest = s.drop_last();
    if i == s.len() - 1 {
        assert forall|j: int| 0 <= j < rest.len() implies pred(#[trigger] rest[j]) by {
            assert(rest[j] == s[j]);
        }
        lemma_filter_keeps_all(rest, pred);
        assert(s.remove(i) =~= rest);
    } else {
        assert forall|j: int| 0 <= j < rest.len() implies (pred(#[trigger] rest[j]) <==> j != i) by {
            assert(rest[j] == s[j]);
        }
        lemma_filter_removes_one(rest, pred, i);
        assert(pred(s[s.len() - 1]));
        assert(s.remove(i) =~= rest.remove(i).push(s.last()));
    }
}

/// A filter that every element passes changes nothing.
pub proof fn lemma_filter_keeps_all<A>(s: Seq<A>, pred: spec_fn(A) -> bool)
    requires
        forall|j: int| 0 <= j < s.len() ==> pred(#[trigger] s[j]),
    ensures
        s.filter(pred) == s,
    decreases s.len(),
{
    reveal(Seq::filter);
    if s.len() > 0 {
        let rest = s.drop_last();
        assert forall|j: int| 0 <= j < rest.len() implies pred(#[trigger] rest[j]) by {
            assert(rest[j] == s[j]);
        }
        lemma_filter_keeps_all(rest, pred);
        assert(rest.push(s.last()) =~= s);
    } else {
        assert(s.filter(pred) =~= s);
    }
}

/// A filter that no element passes leaves nothing.
pub proof fn lemma_filter_keeps_none<A>(s: Seq<A>, pred: spec_fn(A) -> bool)
    requires
        forall|j: int| 0 <= j < s.len() ==> !pred(#[trigger] s[j]),
    ensures
        s.filter(pred) == Seq::<A>::empty(),
    decreases s.len(),
{
    reveal(Seq::filter);
    if s.len() > 0 {
        let rest = s.drop_last();
        assert forall|j: int| 0 <= j < rest.len() implies !pred(#[trigger] rest[j]) by {
            assert(rest[j] == s[j]);
        }
        lemma_filter_keeps_none(rest, pred);
        assert(!pred(s[s.len() - 1]));
    } else {
        assert(s.filter(pred) =~= Seq::<A>::empty());
    }
}

/// Where a change to the elements makes no difference to a filter, changing
/// and filtering can be done in either order.
pub proof fn lemma_filter_of_changed<A>(s: Seq<A>, change: spec_fn(A) -> A, pred: spec_fn(A) -> bool)
    requires
        forall|x: A| #[trigger] pred(change(x)) == pred(x),
    ensures
        s.map_values(change).filter(pred) == s.filter(pred).map_values(change),
    decreases s.len(),
{
    reveal(Seq::filter);
    if s.len() == 0 {
        assert(s.map_values(change).filter(pred) =~= s.filter(pred).map_values(change));
    } else {
        let rest = s.drop_last();
        lemma_filter_of_changed(rest, change, pred);
        assert(s.map_values(change).drop_last() =~= rest.map_values(change));
        assert(s.map_values(change).last() == change(s.last()));
        assert(pred(change(s.last())) == pred(s.last()));
        if pred(s.last()) {
            assert(rest.filter(pred).push(s.last()).map_values(change) =~= rest.filter(
                pred,
            ).map_values(change).push(change(s.last())));
        }
    }
}

} // verus!
