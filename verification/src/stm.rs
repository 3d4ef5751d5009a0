//! A minimal software-transactional-memory substrate for list-valued
//! variables.
//!
//! A [`Memory`] is the committed store: a set of transactional variables,
//! each holding a persistent list and a version counter.  A [`Transaction`]
//! begins from a consistent snapshot of the whole store, stages its reads
//! and writes privately, and takes effect all-or-nothing at
//! [`Memory::commit`], which succeeds only if no variable the transaction
//! read was committed to in the meantime.  A failed commit leaves the store
//! untouched; the caller re-runs the transaction body from scratch.

use vstd::prelude::*;
use crate::list::{ItemList, list_clone, list_elems};

verus! {

/// The two conditions a transactional operation can surface.  Neither is a
/// semantic failure of the queue: `Retry` asks the driver to suspend the
/// transaction until one of the variables it read changes, then re-run it;
/// `Failure` reports that the substrate invalidated the transaction (for
/// example, a conflicting commit), which likewise leads to a re-run.
#[derive(Clone, Copy, Debug, PartialEq, Eq, Structural)]
pub enum StmError {
    /// Suspend the transaction and re-run it after a read variable changes.
    Retry,
    /// The substrate aborted the transaction; re-run it.
    Failure,
}

/// A handle to one transactional variable: an index into the store that
/// created it.  Cloning the handle shares the variable, it does not copy
/// contents.
#[derive(Clone, Copy, Debug, PartialEq, Eq, Structural)]
pub struct TVar {
    id: usize,
}

impl TVar {
    /// The slot this handle names in its store.
    pub closed spec fn idx(self) -> int {
        self.id as int
    }
}

/// The committed store: one persistent list and one version counter per
/// transactional variable.
pub struct Memory {
    vars: Vec<ItemList>,
    versions: Vec<u64>,
}

impl View for Memory {
    type V = Seq<Seq<u64>>;

    /// The committed contents of every variable.
    closed spec fn view(&self) -> Seq<Seq<u64>> {
        self.vars@.map_values(|l: ItemList| list_elems(l))
    }
}

impl Memory {
    /// Version counters, bumped on every committed write to the variable.
    pub closed spec fn versions(self) -> Seq<u64> {
        self.versions@
    }

    pub open spec fn wf(self) -> bool {
        self.versions().len() == self@.len()
    }

    /// An empty store.
    pub fn new() -> (r: Memory)
        ensures
            r.wf(),
            r@ == Seq::<Seq<u64>>::empty(),
    {
        let r = Memory { vars: Vec::new(), versions: Vec::new() };
        proof {
            assert(r@ =~= Seq::<Seq<u64>>::empty());
        }
        r
    }

    /// Creates a fresh transactional variable holding `init`.
    pub fn new_var(&mut self, init: ItemList) -> (v: TVar)
        requires
            old(self).wf(),
        ensures
            final(self).wf(),
            v.idx() == old(self)@.len(),
            final(self)@ == old(self)@.push(list_elems(init)),
            final(self).versions() == old(self).versions().push(0u64),
    {
        let id = self.vars.len();
        self.vars.push(init);
        self.versions.push(0);
        proof {
            assert(self@ =~= old(self)@.push(list_elems(init)));
        }
        TVar { id }
    }
}

/// The version a variable carries after one more committed write.  Distinct
/// from the version before it, which is what conflict detection needs.
pub open spec fn next_version(v: u64) -> u64 {
    if v == u64::MAX {
        0
    } else {
        (v + 1) as u64
    }
}

/// One in-flight transaction: a private snapshot of every variable's
/// committed contents and version, together with the variables it has read
/// (`accessed`) and staged writes to (`written`).
///
/// Every read is answered from `staged`, so two reads of the same variable
/// inside one transaction always agree, and reads of two variables always
/// come from the one committed state the snapshot was taken from — a
/// concurrent commit can never make the transaction see a mixed state.
pub struct Transaction {
    staged: Vec<ItemList>,
    snap_versions: Vec<u64>,
    accessed: Vec<bool>,
    written: Vec<bool>,
}

impl View for Transaction {
    type V = Seq<Seq<u64>>;

    /// The contents of every variable as this transaction sees them.
    closed spec fn view(&self) -> Seq<Seq<u64>> {
        self.staged@.map_values(|l: ItemList| list_elems(l))
    }
}

impl Transaction {
    /// The version each variable had when the snapshot was taken.
    pub closed spec fn snap_versions(self) -> Seq<u64> {
        self.snap_versions@
    }

    /// Which variables this transaction has read.
    pub closed spec fn accessed(self) -> Seq<bool> {
        self.accessed@
    }

    /// Which variables this transaction has staged a write to.
    pub closed spec fn written(self) -> Seq<bool> {
        self.written@
    }

    pub open spec fn wf(self) -> bool {
        &&& self.snap_versions().len() == self@.len()
        &&& self.accessed().len() == self@.len()
        &&& self.written().len() == self@.len()
    }

    /// Starts a transaction against the store: a consistent snapshot of
    /// every variable, with nothing read or written yet.
    pub fn begin(mem: &Memory) -> (t: Transaction)
        requires
            mem.wf(),
        ensures
            t.wf(),
            t@ == mem@,
            t.snap_versions() == mem.versions(),
            t.accessed() == Seq::new(mem@.len(), |i: int| false),
            t.written() == Seq::new(mem@.len(), |i: int| false),
    {
        let n = mem.vars.len();
        let mut staged: Vec<ItemList> = Vec::new();
        let mut snap_versions: Vec<u64> = Vec::new();
        let mut accessed: Vec<bool> = Vec::new();
        let mut written: Vec<bool> = Vec::new();
        let mut i: usize = 0;
        while i < n
            invariant
                i <= n,
                n == mem.vars@.len(),
                mem.wf(),
                staged@.len() == i,
                snap_versions@.len() == i,
                accessed@.len() == i,
                written@.len() == i,
                forall|j: int| 0 <= j < i ==> list_elems(staged@[j]) == mem@[j],
                forall|j: int| 0 <= j < i ==> snap_versions@[j] == mem.versions()[j],
                forall|j: int| 0 <= j < i ==> accessed@[j] == false,
                forall|j: int| 0 <= j < i ==> written@[j] == false,
            decreases n - i,
        {
            staged.push(list_clone(&mem.vars[i]));
            snap_versions.push(mem.versions[i]);
            accessed.push(false);
            written.push(false);
            i = i + 1;
        }
        let t = Transaction { staged, snap_versions, accessed, written };
        proof {
            assert(t@ =~= mem@);
            assert(t.snap_versions() =~= mem.versions());
            assert(t.accessed() =~= Seq::new(mem@.len(), |i: int| false));
            assert(t.written() =~= Seq::new(mem@.len(), |i: int| false));
        }
        t
    }
}

impl TVar {
    /// Reads the variable's value as this transaction sees it: its own
    /// staged write if one exists, else the committed value the snapshot
    /// captured.  The transaction's view of every variable is unchanged, so
    /// two reads of any variables inside one transaction always observe one
    /// mutually consistent state.
    pub fn read(&self, txn: &mut Transaction) -> (r: Result<ItemList, StmError>)
        requires
            old(txn).wf(),
            0 <= self.idx() < old(txn)@.len(),
        ensures
            final(txn).wf(),
            final(txn)@ == old(txn)@,
            final(txn).snap_versions() == old(txn).snap_versions(),
            final(txn).written() == old(txn).written(),
            final(txn).accessed() == old(txn).accessed().update(self.idx(), true),
            r is Ok,
            r matches Ok(l) ==> list_elems(l) == old(txn)@[self.idx()],
    {
        txn.accessed[self.id] = true;
        let val = list_clone(&txn.staged[self.id]);
        proof {
            assert(final(txn)@ =~= old(txn)@);
        }
        Ok(val)
    }

    /// Stages `val` as the variable's new value, visible only inside this
    /// transaction until commit.
    pub fn write(&self, txn: &mut Transaction, val: ItemList) -> (r: Result<(), StmError>)
        requires
            old(txn).wf(),
            0 <= self.idx() < old(txn)@.len(),
        ensures
            final(txn).wf(),
            final(txn)@ == old(txn)@.update(self.idx(), list_elems(val)),
            final(txn).snap_versions() == old(txn).snap_versions(),
            final(txn).accessed() == old(txn).accessed(),
            final(txn).written() == old(txn).written().update(self.idx(), true),
            r is Ok,
    {
        let ghost v = list_elems(val);
        txn.staged[self.id] = val;
        txn.written[self.id] = true;
        proof {
            assert(final(txn)@ =~= old(txn)@.update(self.idx(), v));
        }
        Ok(())
    }
}

impl Memory {
    /// Tries to commit a transaction.  It succeeds exactly when no variable
    /// the transaction read has been committed to since its snapshot was
    /// taken; then every staged write is installed at once and each written
    /// variable's version moves on.  On conflict the store is untouched and
    /// the caller re-runs the transaction from scratch.
    pub fn commit(&mut self, txn: Transaction) -> (r: bool)
        requires
            old(self).wf(),
            txn.wf(),
            txn@.len() == old(self)@.len(),
        ensures
            final(self).wf(),
            final(self)@.len() == old(self)@.len(),
            final(self).versions().len() == old(self).versions().len(),
            r <==> (forall|i: int|
                0 <= i < txn@.len() && txn.accessed()[i] ==> old(self).versions()[i]
                    == txn.snap_versions()[i]),
            !r ==> final(self)@ == old(self)@ && final(self).versions() == old(self).versions(),
            r ==> (forall|i: int|
                0 <= i < txn@.len() ==> final(self)@[i] == (if txn.written()[i] {
                    txn@[i]
                } else {
                    old(self)@[i]
                })),
            r ==> (forall|i: int|
                0 <= i < txn@.len() ==> final(self).versions()[i] == (if txn.written()[i] {
                    next_version(old(self).versions()[i])
                } else {
                    old(self).versions()[i]
                })),
    {
        let n = self.vars.len();
        let mut ok: bool = true;
        let mut i: usize = 0;
        while i < n
            invariant
                i <= n,
                n == self.vars@.len(),
                self == old(self),
                self.wf(),
                txn.wf(),
                txn@.len() == self@.len(),
                ok ==> (forall|j: int|
                    0 <= j < i && txn.accessed()[j] ==> self.versions()[j]
                        == txn.snap_versions()[j]),
                !ok ==> (exists|j: int|
                    0 <= j < i && txn.accessed()[j] && self.versions()[j]
                        != txn.snap_versions()[j]),
            decreases n - i,
        {
            if txn.accessed[i] && self.versions[i] != txn.snap_versions[i] {
                ok = false;
                proof {
                    assert(0 <= i < n && txn.accessed()[i as int] && self.versions()[i as int]
                        != txn.snap_versions()[i as int]);
                }
            }
            i = i + 1;
        }
        if !ok {
            return false;
        }
        let mut i: usize = 0;
        while i < n
            invariant
                i <= n,
                n == self.vars@.len(),
                self.wf(),
                txn.wf(),
                txn@.len() == old(self)@.len(),
                self@.len() == old(self)@.len(),
                self.versions().len() == old(self).versions().len(),
                forall|j: int|
                    0 <= j < i ==> self@[j] == (if txn.written()[j] {
                        txn@[j]
                    } else {
                        old(self)@[j]
                    }),
                forall|j: int|
                    0 <= j < i ==> self.versions()[j] == (if txn.written()[j] {
                        next_version(old(self).versions()[j])
                    } else {
                        old(self).versions()[j]
                    }),
                forall|j: int| i <= j < n ==> self@[j] == old(self)@[j],
                forall|j: int| i <= j < n ==> self.versions()[j] == old(self).versions()[j],
            decreases n - i,
        {
            let ghost prev = self@;
            if txn.written[i] {
                self.vars[i] = list_clone(&txn.staged[i]);
                let v = self.versions[i];
                self.versions[i] = if v == u64::MAX {
                    0
                } else {
                    v + 1
                };
                proof {
                    assert(self@ =~= prev.update(i as int, txn@[i as int]));
                }
            }
            i = i + 1;
        }
        true
    }
}

} // verus!
