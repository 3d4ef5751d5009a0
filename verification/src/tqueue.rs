//! The transactional FIFO queue.
//!
//! A [`TQueue`] owns two transactional variables.  `write` accumulates
//! newly enqueued items, newest first; `read` holds items ready to be
//! dequeued, oldest first.  The logical queue contents are `read` followed
//! by the reverse of `write`, so a bulk reversal is paid only when `read`
//! runs out — each item is reversed exactly once in its lifetime, which
//! makes enqueue and dequeue amortized constant time.
//!
//! A dequeue that finds both lists empty returns [`StmError::Retry`]: not a
//! failure, but a request to the transaction driver to suspend until a
//! variable this transaction read is committed to, then re-run the body.

use vstd::prelude::*;
use crate::list::{list_drop_first, list_elems, list_first, list_is_empty, list_new,
    list_push_front, list_reverse};
use crate::stm::{Memory, StmError, TVar, Transaction};

verus! {

/// Reversing a list with a new front item reverses the rest and puts that
/// item at the back: the step that keeps `write`'s reverse-insertion order
/// consistent with FIFO order.
pub proof fn lemma_reverse_push_front(s: Seq<u64>, x: u64)
    ensures
        (seq![x] + s).reverse() == s.reverse().push(x),
{
    assert((seq![x] + s).reverse() =~= s.reverse().push(x));
}

/// A queue handle: the two transactional variables holding its contents.
/// Cloning the handle shares the variables; it does not copy contents.
#[derive(Clone, Copy)]
pub struct TQueue {
    read: TVar,
    write: TVar,
}

impl TQueue {
    /// The slot of the variable holding items ready to dequeue, oldest
    /// first.
    pub closed spec fn read_idx(self) -> int {
        self.read.idx()
    }

    /// The slot of the variable holding newly enqueued items, newest
    /// first.
    pub closed spec fn write_idx(self) -> int {
        self.write.idx()
    }

    /// The handle names two distinct variables of a store with `n` slots.
    pub open spec fn valid(self, n: int) -> bool {
        &&& 0 <= self.read_idx() < n
        &&& 0 <= self.write_idx() < n
        &&& self.read_idx() != self.write_idx()
    }

    /// The logical FIFO contents under a given view of the variables:
    /// the ready items, then the freshly written items in reverse, oldest
    /// first overall.
    pub open spec fn contents(self, vars: Seq<Seq<u64>>) -> Seq<u64> {
        vars[self.read_idx()] + vars[self.write_idx()].reverse()
    }

    /// Creates a queue whose `read` and `write` variables both hold an
    /// empty list: a logically empty queue.
    pub fn new(mem: &mut Memory) -> (q: TQueue)
        requires
            old(mem).wf(),
        ensures
            final(mem).wf(),
            final(mem)@.len() == old(mem)@.len() + 2,
            q.valid(final(mem)@.len() as int),
            q.contents(final(mem)@) == Seq::<u64>::empty(),
            forall|i: int| 0 <= i < old(mem)@.len() ==> final(mem)@[i] == old(mem)@[i],
            forall|i: int|
                0 <= i < old(mem)@.len() ==> final(mem).versions()[i] == old(mem).versions()[i],
    {
        let read = mem.new_var(list_new());
        let write = mem.new_var(list_new());
        let q = TQueue { read, write };
        proof {
            assert(q.contents(mem@) =~= Seq::<u64>::empty());
            assert forall|i: int| 0 <= i < old(mem)@.len() implies mem.versions()[i] == old(
                mem,
            ).versions()[i] by {
                assert(mem.versions() == old(mem).versions().push(0u64).push(0u64));
            }
        }
        q
    }

    /// Enqueues `item`: stages `write` as the old `write` list with `item`
    /// pushed on front.  Purely a staging step — it becomes visible only if
    /// the enclosing transaction commits, and it never asks for a retry.
    pub fn write(&self, txn: &mut Transaction, item: u64) -> (r: Result<(), StmError>)
        requires
            old(txn).wf(),
            self.valid(old(txn)@.len() as int),
        ensures
            final(txn).wf(),
            final(txn)@.len() == old(txn)@.len(),
            r is Ok,
            self.contents(final(txn)@) == self.contents(old(txn)@).push(item),
            final(txn)@ == old(txn)@.update(
                self.write_idx(),
                seq![item] + old(txn)@[self.write_idx()],
            ),
            final(txn).snap_versions() == old(txn).snap_versions(),
            final(txn).accessed() == old(txn).accessed().update(self.write_idx(), true),
            final(txn).written() == old(txn).written().update(self.write_idx(), true),
    {
        let list = self.write.read(txn)?;
        let pushed = list_push_front(&list, item);
        self.write.write(txn, pushed)?;
        proof {
            lemma_reverse_push_front(old(txn)@[self.write_idx()], item);
            assert(self.contents(txn@) =~= self.contents(old(txn)@).push(item));
            assert(txn.accessed() =~= old(txn).accessed().update(self.write_idx(), true));
        }
        Ok(())
    }

    /// Dequeues the oldest pending item, or asks the driver to retry.
    ///
    /// If `read` is non-empty its front is returned and dropped — the
    /// `write` variable is neither read nor written on this path, so such
    /// a dequeue commits without conflicting with a concurrent
    /// enqueue-only transaction.  If `read` is empty but `write` is not,
    /// `write` is reversed into `read` (and cleared) before the front is
    /// taken.  If both are empty the result is `Err(Retry)` — exactly
    /// when the queue is logically empty — nothing is staged, and both
    /// variables are recorded as read, so commit-time conflict detection
    /// and the driver's wakeup key on exactly the variables whose change
    /// could make a re-run proceed.
    ///
    /// The ensures pin, per path, the staged value of each variable and
    /// the read (`accessed`) and write (`written`) records, so the
    /// committed store after `Memory::commit` follows from this contract
    /// alone.
    pub fn read(&self, txn: &mut Transaction) -> (r: Result<u64, StmError>)
        requires
            old(txn).wf(),
            self.valid(old(txn)@.len() as int),
        ensures
            final(txn).wf(),
            final(txn)@.len() == old(txn)@.len(),
            final(txn).snap_versions() == old(txn).snap_versions(),
            self.contents(old(txn)@).len() == 0 ==> r == Err::<u64, StmError>(StmError::Retry)
                && final(txn)@ == old(txn)@ && final(txn).written() == old(txn).written(),
            self.contents(old(txn)@).len() > 0 ==> r == Ok::<u64, StmError>(
                self.contents(old(txn)@)[0],
            ) && self.contents(final(txn)@) == self.contents(old(txn)@).drop_first(),
            old(txn)@[self.read_idx()].len() > 0 ==> final(txn)@ == old(txn)@.update(
                self.read_idx(),
                old(txn)@[self.read_idx()].drop_first(),
            ) && final(txn).accessed() == old(txn).accessed().update(self.read_idx(), true)
                && final(txn).written() == old(txn).written().update(self.read_idx(), true),
            old(txn)@[self.read_idx()].len() == 0 && old(txn)@[self.write_idx()].len() > 0
                ==> final(txn)@ == old(txn)@.update(self.write_idx(), Seq::<u64>::empty()).update(
                self.read_idx(),
                old(txn)@[self.write_idx()].reverse().drop_first(),
            ) && final(txn).accessed() == old(txn).accessed().update(self.read_idx(), true).update(
                self.write_idx(),
                true,
            ) && final(txn).written() == old(txn).written().update(self.write_idx(), true).update(
                self.read_idx(),
                true,
            ),
            old(txn)@[self.read_idx()].len() == 0 && old(txn)@[self.write_idx()].len() == 0
                ==> final(txn).accessed() == old(txn).accessed().update(
                self.read_idx(),
                true,
            ).update(self.write_idx(), true),
    {
        let ghost q0 = self.contents(old(txn)@);
        let xs = self.read.read(txn)?;
        if list_is_empty(&xs) {
            let ys = self.write.read(txn)?;
            if list_is_empty(&ys) {
                proof {
                    assert(q0 =~= Seq::<u64>::empty());
                }
                Err(StmError::Retry)
            } else {
                let zs = list_reverse(&ys);
                self.write.write(txn, list_new())?;
                let rest = list_drop_first(&zs).unwrap();
                self.read.write(txn, rest)?;
                let front = list_first(&zs).unwrap();
                proof {
                    assert(q0 =~= list_elems(zs));
                    assert(self.contents(txn@) =~= q0.drop_first());
                }
                Ok(front)
            }
        } else {
            let rest = list_drop_first(&xs).unwrap();
            self.read.write(txn, rest)?;
            let front = list_first(&xs).unwrap();
            proof {
                assert(front == q0[0]);
                assert(self.contents(txn@) =~= q0.drop_first());
            }
            Ok(front)
        }
    }
}

} // verus!


