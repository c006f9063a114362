//! Stable sorting of rows by a ranking.

use vstd::prelude::*;

verus! {

/// An order in which rows are listed.
pub trait Ranking {
    type Row: View;

    /// Whether `a` must come before `b`.
    spec fn precedes(a: <Self::Row as View>::V, b: <Self::Row as View>::V) -> bool;

    /// Tells whether `a` must come before `b`.
    fn row_precedes(a: &Self::Row, b: &Self::Row) -> (r: bool)
        ensures
            r == Self::precedes(a@, b@),
    ;
}

/// The views of a run of rows, in order.
pub open spec fn views_of<T: View>(rows: Seq<T>) -> Seq<T::V> {
    Seq::new(rows.len(), |i: int| rows[i]@)
}

/// Where `x` goes into `placed`: behind the leading rows that must come
/// before it.
pub open spec fn slot<R: Ranking>(placed: Seq<<R::Row as View>::V>, x: <R::Row as View>::V) -> int
    decreases placed.len(),
{
    if placed.len() > 0 && R::precedes(placed[0], x) {
        1 + slot::<R>(placed.drop_first(), x)
    } else {
        0
    }
}

/// `placed` after the rows of `pending` went in, last row first, each at its
/// slot.
pub open spec fn placed_all<R: Ranking>(
    pending: Seq<<R::Row as View>::V>,
    placed: Seq<<R::Row as View>::V>,
) -> Seq<<R::Row as View>::V>
    decreases pending.len(),
{
    if pending.len() == 0 {
        placed
    } else {
        placed_all::<R>(
            pending.drop_last(),
            placed.insert(slot::<R>(placed, pending.last()), pending.last()),
        )
    }
}

/// The rows in the order of the ranking; rows that the ranking does not
/// tell apart keep the order they had.
pub open spec fn ranked<R: Ranking>(rows: Seq<<R::Row as View>::V>) -> Seq<<R::Row as View>::V> {
    placed_all::<R>(rows, Seq::empty())
}

/// A slot lies within the rows that are placed, or right behind them.
pub proof fn lemma_slot_bounds<R: Ranking>(placed: Seq<<R::Row as View>::V>, x: <R::Row as View>::V)
    ensures
        0 <= slot::<R>(placed, x) <= placed.len(),
    decreases placed.len(),
{
    if placed.len() > 0 && R::precedes(placed[0], x) {
        lemma_slot_bounds::<R>(placed.drop_first(), x);
    }
}

fn find_slot<R: Ranking>(placed: &Vec<R::Row>, x: &R::Row) -> (p: usize)
    ensures
        p == slot::<R>(views_of(placed@), x@),
        p <= placed.len(),
{
    let mut i: usize = 0;
    let ghost all = views_of(placed@);
    assert(all.skip(0) =~= all);
    while i < placed.len() && R::row_precedes(&placed[i], x)
        invariant
            i <= placed.len(),
            all == views_of(placed@),
            slot::<R>(all, x@) == i + slot::<R>(all.skip(i as int), x@),
        decreases placed.len() - i,
    {
        assert(all.skip(i as int).drop_first() =~= all.skip(i + 1));
        assert(all.skip(i as int)[0] == placed@[i as int]@);
        i += 1;
    }
    proof {
        if i < placed.len() {
            assert(all.skip(i as int)[0] == placed@[i as int]@);
        }
    }
    i
}

/// Sorts rows by the ranking `R`, stably.
pub fn sort_rows<R: Ranking>(rows: Vec<R::Row>) -> (r: Vec<R::Row>)
    ensures
        views_of(r@) == ranked::<R>(views_of(rows@)),
{
    let mut pending = rows;
    let mut placed: Vec<R::Row> = Vec::new();
    assert(views_of(placed@) =~= Seq::empty());
    while pending.len() > 0
        invariant
            placed_all::<R>(views_of(pending@), views_of(placed@)) == ranked::<R>(views_of(rows@)),
        decreases pending.len(),
    {
        let ghost before = views_of(pending@);
        let ghost done = views_of(placed@);
        let x = pending.pop().unwrap();
        assert(views_of(pending@) =~= before.drop_last());
        assert(before.last() == x@);
        let p = find_slot::<R>(&placed, &x);
        placed.insert(p, x);
        assert(views_of(placed@) =~= done.insert(p as int, before.last()));
    }
    placed
}

/// Placing rows keeps their number.
pub proof fn lemma_placed_all_len<R: Ranking>(
    pending: Seq<<R::Row as View>::V>,
    placed: Seq<<R::Row as View>::V>,
)
    ensures
        placed_all::<R>(pending, placed).len() == pending.len() + placed.len(),
    decreases pending.len(),
{
    if pending.len() > 0 {
        lemma_slot_bounds::<R>(placed, pending.last());
        lemma_placed_all_len::<R>(
            pending.drop_last(),
            placed.insert(slot::<R>(placed, pending.last()), pending.last()),
        );
    }
}

/// Ranking rows keeps their number.
pub proof fn lemma_ranked_len<R: Ranking>(rows: Seq<<R::Row as View>::V>)
    ensures
        ranked::<R>(rows).len() == rows.len(),
{
    lemma_placed_all_len::<R>(rows, Seq::empty());
}

/// Whether no row stands behind a row that it must come before.
pub open spec fn is_ranked<R: Ranking>(rows: Seq<<R::Row as View>::V>) -> bool {
    forall|i: int, j: int| 0 <= i < j < rows.len() ==> !R::precedes(rows[j], rows[i])
}

/// Whether the ranking is a strict weak order: no two rows come before each
/// other, and where neither `a` comes before `b` nor `b` before `c`, `a` does
/// not come before `c`.
pub open spec fn is_strict_weak<R: Ranking>() -> bool {
    &&& forall|a: <R::Row as View>::V, b: <R::Row as View>::V|
        #[trigger] R::precedes(a, b) ==> !R::precedes(b, a)
    &&& forall|a: <R::Row as View>::V, b: <R::Row as View>::V, c: <R::Row as View>::V|
        !#[trigger] R::precedes(a, b) && !#[trigger] R::precedes(b, c) ==> !R::precedes(a, c)
}

/// The rows before the slot of `x` must come before `x`, and the row at the
/// slot need not.
pub proof fn lemma_slot<R: Ranking>(placed: Seq<<R::Row as View>::V>, x: <R::Row as View>::V)
    ensures
        0 <= slot::<R>(placed, x) <= placed.len(),
        forall|k: int| 0 <= k < slot::<R>(placed, x) ==> R::precedes(#[trigger] placed[k], x),
        slot::<R>(placed, x) < placed.len() ==> !R::precedes(placed[slot::<R>(placed, x)], x),
    decreases placed.len(),
{
    if placed.len() > 0 && R::precedes(placed[0], x) {
        lemma_slot::<R>(placed.drop_first(), x);
        let rest = placed.drop_first();
        assert forall|k: int| 0 <= k < slot::<R>(placed, x) implies R::precedes(
            #[trigger] placed[k],
            x,
        ) by {
            if k > 0 {
                assert(placed[k] == rest[k - 1]);
            }
        }
        if slot::<R>(placed, x) < placed.len() {
            assert(placed[slot::<R>(placed, x)] == rest[slot::<R>(rest, x)]);
        }
    }
}

/// Placing rows at their slots keeps ranked rows ranked, and neither adds
/// nor loses a row.
pub proof fn lemma_placed_all<R: Ranking>(
    pending: Seq<<R::Row as View>::V>,
    placed: Seq<<R::Row as View>::V>,
)
    ensures
        placed_all::<R>(pending, placed).to_multiset() == pending.to_multiset().add(
            placed.to_multiset(),
        ),
        is_strict_weak::<R>() && is_ranked::<R>(placed) ==> is_ranked::<R>(
            placed_all::<R>(pending, placed),
        ),
    decreases pending.len(),
{
    broadcast use vstd::seq_lib::group_to_multiset_ensures;

    if pending.len() == 0 {
        assert(pending.to_multiset().add(placed.to_multiset()) =~= placed.to_multiset());
    } else {
        let x = pending.last();
        let p = slot::<R>(placed, x);
        lemma_slot::<R>(placed, x);
        let next = placed.insert(p, x);
        placed.insert_ensures(p, x);
        lemma_placed_all::<R>(pending.drop_last(), next);
        assert(pending =~= pending.drop_last().push(x));
        assert(pending.to_multiset() =~= pending.drop_last().to_multiset().insert(x));
        assert(next.to_multiset() =~= placed.to_multiset().insert(x));
        assert(pending.drop_last().to_multiset().add(next.to_multiset())
            =~= pending.to_multiset().add(placed.to_multiset()));
        if is_strict_weak::<R>() && is_ranked::<R>(placed) {
            assert forall|i: int, j: int| 0 <= i < j < next.len() implies !R::precedes(
                next[j],
                next[i],
            ) by {
                if j < p {
                    assert(next[i] == placed[i] && next[j] == placed[j]);
                } else if j == p {
                    assert(next[i] == placed[i]);
                    assert(R::precedes(placed[i], x));
                } else if i < p {
                    assert(next[i] == placed[i] && next[j] == placed[j - 1]);
                } else if i == p {
                    assert(next[j] == placed[j - 1]);
                    if j - 1 > p {
                        assert(!R::precedes(placed[j - 1], placed[p]));
                        assert(!R::precedes(placed[p], x));
                    }
                } else {
                    assert(next[i] == placed[i - 1] && next[j] == placed[j - 1]);
                }
            }
        }
    }
}

/// Ranking puts the rows in order and neither adds nor loses a row: the
/// result holds each row as often as the rows given, and under a strict weak
/// order no row of the result stands behind a row that it must come before.
pub proof fn lemma_ranked<R: Ranking>(rows: Seq<<R::Row as View>::V>)
    ensures
        ranked::<R>(rows).to_multiset() == rows.to_multiset(),
        is_strict_weak::<R>() ==> is_ranked::<R>(ranked::<R>(rows)),
{
    broadcast use vstd::seq_lib::group_to_multiset_ensures;

    let none = Seq::<<R::Row as View>::V>::empty();
    lemma_placed_all::<R>(rows, none);
    assert(rows.to_multiset().add(none.to_multiset()) =~= rows.to_multiset());
}

} // verus!
