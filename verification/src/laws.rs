//! The queue's order and conservation laws, stated over the logical
//! contents that the operation contracts in [`crate::tqueue`] are written
//! against.
//!
//! `TQueue::write` ensures the contents grow by `push(item)` at the back,
//! and `TQueue::read` ensures the result is `contents[0]` and the contents
//! shrink by `drop_first()`.  The laws below close the loop: iterating
//! those two steps yields first-in-first-out order, conserves the items,
//! and the reversal that dequeue performs exactly undoes the reverse
//! insertion order of the `write` list.

use vstd::prelude::*;

verus! {

/// The items returned by `k` successive dequeues of a queue whose logical
/// contents are `q`: each dequeue returns the front and drops it.
pub open spec fn drained(q: Seq<u64>, k: int) -> Seq<u64>
    decreases k,
{
    if k <= 0 {
        Seq::empty()
    } else {
        seq![q[0]] + drained(q.drop_first(), k - 1)
    }
}

/// First-in-first-out order: for any queue contents `q`, `k` successive
/// dequeues return exactly the `k` oldest items, in the order they were
/// enqueued.
pub proof fn lemma_fifo_order(q: Seq<u64>, k: int)
    requires
        0 <= k <= q.len(),
    ensures
        drained(q, k) == q.subrange(0, k),
    decreases k,
{
    if k == 0 {
        assert(drained(q, 0) =~= q.subrange(0, 0));
    } else {
        lemma_fifo_order(q.drop_first(), k - 1);
        assert(drained(q, k) =~= q.subrange(0, k));
    }
}

/// The logical contents after enqueuing `items`, in order, onto a queue
/// holding `q`: each enqueue appends at the back, as `TQueue::write`
/// ensures.
pub open spec fn enqueued(q: Seq<u64>, items: Seq<u64>) -> Seq<u64>
    decreases items.len(),
{
    if items.len() == 0 {
        q
    } else {
        enqueued(q, items.drop_last()).push(items.last())
    }
}

/// Enqueues keep arrival order: after enqueuing `items` onto a queue
/// holding `q`, the logical contents are `q` followed by `items`.  With
/// `q` empty, `lemma_fifo_order` then says that `items.len()` dequeues
/// return exactly `items`, in order.
pub proof fn lemma_enqueued_contents(q: Seq<u64>, items: Seq<u64>)
    ensures
        enqueued(q, items) == q + items,
    decreases items.len(),
{
    if items.len() == 0 {
        assert(enqueued(q, items) =~= q + items);
    } else {
        lemma_enqueued_contents(q, items.drop_last());
        assert(enqueued(q, items) =~= q + items);
    }
}

/// The `write` list after enqueuing `items`, in order, onto an empty
/// queue: each enqueue pushes onto the front, so the list carries the
/// items newest first.
pub open spec fn write_list_after(items: Seq<u64>) -> Seq<u64>
    decreases items.len(),
{
    if items.len() == 0 {
        Seq::empty()
    } else {
        seq![items.last()] + write_list_after(items.drop_last())
    }
}

/// Amortized reversal correctness: enqueues leave `write` holding the
/// items in reverse order, and the single reversal a dequeue performs on
/// an exhausted `read` list restores exactly the enqueue order.
pub proof fn lemma_reversal_round_trip(items: Seq<u64>)
    ensures
        write_list_after(items) == items.reverse(),
        write_list_after(items).reverse() == items,
    decreases items.len(),
{
    if items.len() == 0 {
        assert(write_list_after(items) =~= items.reverse());
        assert(write_list_after(items).reverse() =~= items);
    } else {
        lemma_reversal_round_trip(items.drop_last());
        assert(write_list_after(items) =~= items.reverse());
        assert(items.reverse().reverse() =~= items);
    }
}

/// Enqueue conservation: appending an item adds exactly that item, once,
/// to the multiset of pending items.
pub proof fn lemma_enqueue_conserves(q: Seq<u64>, x: u64)
    ensures
        q.push(x).to_multiset() == q.to_multiset().insert(x),
{
    broadcast use vstd::seq_lib::group_to_multiset_ensures;

}

/// No invention or duplication: whatever `k` dequeues return is contained,
/// with multiplicity, in the items that were pending — an item can come
/// out at most as often as it went in, and never before it went in.
pub proof fn lemma_drained_within(q: Seq<u64>, k: int)
    requires
        0 <= k <= q.len(),
    ensures
        forall|x: u64|
            drained(q, k).to_multiset().count(x) <= q.to_multiset().count(x),
    decreases k,
{
    broadcast use vstd::multiset::group_multiset_axioms;
    broadcast use vstd::seq_lib::group_to_multiset_ensures;

    if k <= 0 {
        assert(drained(q, k).to_multiset().len() == 0);
    } else {
        let rest = drained(q.drop_first(), k - 1);
        lemma_drained_within(q.drop_first(), k - 1);
        lemma_dequeue_conserves(q);
        lemma_dequeue_conserves(seq![q[0]] + rest);
        assert((seq![q[0]] + rest).drop_first() =~= rest);
        assert((seq![q[0]] + rest)[0] == q[0]);
        assert forall|x: u64|
            drained(q, k).to_multiset().count(x) <= q.to_multiset().count(x) by {
            assert(drained(q, k).to_multiset() == rest.to_multiset().insert(q[0]));
            assert(q.to_multiset() == q.drop_first().to_multiset().insert(q[0]));
            assert(rest.to_multiset().count(x) <= q.drop_first().to_multiset().count(x));
        }
    }
}

/// Dequeue conservation: the returned front together with the remaining
/// contents make up the old contents exactly — no item is lost, duplicated,
/// or invented by a dequeue.
pub proof fn lemma_dequeue_conserves(q: Seq<u64>)
    requires
        q.len() > 0,
    ensures
        q.to_multiset() == q.drop_first().to_multiset().insert(q[0]),
{
    broadcast use vstd::seq_lib::group_to_multiset_ensures;

    assert(q.remove(0) =~= q.drop_first());
    assert(q.remove(0).to_multiset() == q.to_multiset().remove(q[0]));
    assert(q.to_multiset().contains(q[0]));
    assert(q.to_multiset().remove(q[0]).insert(q[0]) =~= q.to_multiset());
}

} // verus!
