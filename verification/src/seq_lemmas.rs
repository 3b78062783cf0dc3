//! Facts about filtered sequences.

use vstd::prelude::*;

verus! {

/// Filtering one more element: the prefix of length `j + 1` filters to the
/// filtered prefix of length `j`, with `s[j]` appended if it passes.
pub proof fn lemma_filter_take_step<A>(s: Seq<A>, pred: spec_fn(A) -> bool, j: int)
    requires
        0 <= j < s.len(),
    ensures
        s.take(j + 1).filter(pred) == if pred(s[j]) {
            s.take(j).filter(pred).push(s[j])
        } else {
            s.take(j).filter(pred)
        },
{
    reveal(Seq::filter);
    assert(s.take(j + 1).drop_last() =~= s.take(j));
}

/// Filtering the empty prefix gives the empty sequence.
pub proof fn lemma_filter_take_none<A>(s: Seq<A>, pred: spec_fn(A) -> bool)
    ensures
        s.take(0).filter(pred) == Seq::<A>::empty(),
{
    reveal(Seq::filter);
    assert(s.take(0) =~= Seq::<A>::empty());
}

/// Whether `pos` says where the elements of `s.filter(pred)` stand in `s`:
/// element by element, in rising positions.
pub open spec fn is_filter_positions<A>(s: Seq<A>, pred: spec_fn(A) -> bool, pos: Seq<int>) -> bool {
    &&& pos.len() == s.filter(pred).len()
    &&& forall|a: int|
        0 <= a < pos.len() ==> 0 <= #[trigger] pos[a] < s.len() && s.filter(pred)[a] == s[pos[a]]
    &&& forall|a: int, b: int| 0 <= a < b < pos.len() ==> pos[a] < pos[b]
}

/// The positions in `s` of the elements of `s.filter(pred)`.
pub open spec fn filter_positions<A>(s: Seq<A>, pred: spec_fn(A) -> bool) -> Seq<int> {
    choose|pos: Seq<int>| is_filter_positions(s, pred, pos)
}

/// Every element of a filtered sequence is an element of the sequence, and
/// the filter keeps the elements' order.
pub proof fn lemma_filter_positions<A>(s: Seq<A>, pred: spec_fn(A) -> bool) -> (pos: Seq<int>)
    ensures
        is_filter_positions(s, pred, pos),
    decreases s.len(),
{
    reveal(Seq::filter);
    if s.len() == 0 {
        Seq::empty()
    } else {
        let sub = lemma_filter_positions(s.drop_last(), pred);
        if pred(s.last()) {
            sub.push(s.len() - 1)
        } else {
            sub
        }
    }
}

/// The chosen positions are positions of the filtered elements.
pub proof fn lemma_filter_positions_exist<A>(s: Seq<A>, pred: spec_fn(A) -> bool)
    ensures
        is_filter_positions(s, pred, filter_positions(s, pred)),
{
    let pos = lemma_filter_positions(s, pred);
}

/// Filtering out the one element that fails the test removes that element.
pub proof fn lemma_filter_removes_one<A>(s: Seq<A>, pred: spec_fn(A) -> bool, k: int)
    requires
        0 <= k < s.len(),
        !pred(s[k]),
        forall|j: int| 0 <= j < s.len() && j != k ==> pred(#[trigger] s[j]),
    ensures
        s.filter(pred) == s.remove(k),
    decreases s.len(),
{
    reveal(Seq::filter);
    let front = s.drop_last();
    if k == s.len() - 1 {
        lemma_filter_keeps_all(front, pred);
        assert(s.remove(k) =~= front);
    } else {
        lemma_filter_removes_one(front, pred, k);
        assert(s.remove(k) =~= front.remove(k).push(s.last()));
    }
}

/// Filtering a sequence whose elements all pass the test changes nothing.
pub proof fn lemma_filter_keeps_all<A>(s: Seq<A>, pred: spec_fn(A) -> bool)
    requires
        forall|j: int| 0 <= j < s.len() ==> pred(#[trigger] s[j]),
    ensures
        s.filter(pred) == s,
    decreases s.len(),
{
    reveal(Seq::filter);
    if s.len() > 0 {
        lemma_filter_keeps_all(s.drop_last(), pred);
        assert(s.drop_last().push(s.last()) =~= s);
    }
}

} // verus!
