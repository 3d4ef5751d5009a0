//! End-to-end tests of the transactional queue: FIFO order, conservation,
//! blocking-by-retry on emptiness, and snapshot consistency across
//! conflicting commits.

use stm_core::stm::{Memory, StmError, Transaction};
use stm_core::tqueue::TQueue;

#[test]
fn test_tqueue() {
    let mut mem = Memory::new();
    let tqueue = TQueue::new(&mut mem);

    let mut txn = Transaction::begin(&mem);
    tqueue.write(&mut txn, 1).unwrap();
    let v = tqueue.read(&mut txn).unwrap();
    assert!(mem.commit(txn));
    assert_eq!(v, 1);

    let mut txn = Transaction::begin(&mem);
    tqueue.write(&mut txn, 1).unwrap();
    assert!(mem.commit(txn));
    let mut txn = Transaction::begin(&mem);
    let v = tqueue.read(&mut txn).unwrap();
    assert!(mem.commit(txn));
    assert_eq!(v, 1);
}

#[test]
fn fifo_across_separate_commits() {
    let mut mem = Memory::new();
    let q = TQueue::new(&mut mem);
    for item in [1u64, 2, 3] {
        let mut txn = Transaction::begin(&mem);
        q.write(&mut txn, item).unwrap();
        assert!(mem.commit(txn));
    }
    for expected in [1u64, 2, 3] {
        let mut txn = Transaction::begin(&mem);
        let v = q.read(&mut txn).unwrap();
        assert!(mem.commit(txn));
        assert_eq!(v, expected);
    }
}

#[test]
fn reversal_preserves_enqueue_order() {
    // All enqueues first, so every item crosses the one bulk reversal from
    // `write` into `read`; the dequeue order must still be the enqueue
    // order.
    let mut mem = Memory::new();
    let q = TQueue::new(&mut mem);
    let items = [10u64, 20, 30, 40, 50];
    let mut txn = Transaction::begin(&mem);
    for item in items {
        q.write(&mut txn, item).unwrap();
    }
    assert!(mem.commit(txn));
    for expected in items {
        let mut txn = Transaction::begin(&mem);
        let v = q.read(&mut txn).unwrap();
        assert!(mem.commit(txn));
        assert_eq!(v, expected);
    }
    let mut txn = Transaction::begin(&mem);
    assert_eq!(q.read(&mut txn), Err(StmError::Retry));
}

#[test]
fn empty_queue_asks_for_retry() {
    // A dequeue on an empty queue yields the retry signal, never a value.
    // With no enqueuer ever committing, a bounded retry harness sees the
    // same answer every time: the caller would block forever, not get a
    // wrong item.
    let mut mem = Memory::new();
    let q = TQueue::new(&mut mem);
    for _ in 0..100 {
        let mut txn = Transaction::begin(&mem);
        assert_eq!(q.read(&mut txn), Err(StmError::Retry));
    }
}

#[test]
fn alternating_enqueue_dequeue() {
    let mut mem = Memory::new();
    let q = TQueue::new(&mut mem);

    let mut txn = Transaction::begin(&mem);
    q.write(&mut txn, 1).unwrap();
    assert!(mem.commit(txn));
    let mut txn = Transaction::begin(&mem);
    assert_eq!(q.read(&mut txn), Ok(1));
    assert!(mem.commit(txn));

    let mut txn = Transaction::begin(&mem);
    q.write(&mut txn, 2).unwrap();
    assert!(mem.commit(txn));
    let mut txn = Transaction::begin(&mem);
    assert_eq!(q.read(&mut txn), Ok(2));
    assert!(mem.commit(txn));

    // Observably empty again: a further dequeue asks for a retry.
    let mut txn = Transaction::begin(&mem);
    assert_eq!(q.read(&mut txn), Err(StmError::Retry));
}

#[test]
fn interleaved_operations_lose_nothing() {
    // Interleave enqueues and dequeues; every enqueued item comes out
    // exactly once, in enqueue order.
    let mut mem = Memory::new();
    let q = TQueue::new(&mut mem);
    let mut returned: Vec<u64> = Vec::new();

    let mut txn = Transaction::begin(&mem);
    q.write(&mut txn, 7).unwrap();
    q.write(&mut txn, 8).unwrap();
    assert!(mem.commit(txn));

    let mut txn = Transaction::begin(&mem);
    returned.push(q.read(&mut txn).unwrap());
    assert!(mem.commit(txn));

    let mut txn = Transaction::begin(&mem);
    q.write(&mut txn, 9).unwrap();
    assert!(mem.commit(txn));

    for _ in 0..2 {
        let mut txn = Transaction::begin(&mem);
        returned.push(q.read(&mut txn).unwrap());
        assert!(mem.commit(txn));
    }
    assert_eq!(returned, vec![7, 8, 9]);

    let mut txn = Transaction::begin(&mem);
    assert_eq!(q.read(&mut txn), Err(StmError::Retry));
}

#[test]
fn conflicting_dequeues_do_not_duplicate() {
    // Two transactions race to dequeue the same item.  Both see it in
    // their snapshots, but only the first commit succeeds: the second is
    // rejected, so the item is returned once, never twice.
    let mut mem = Memory::new();
    let q = TQueue::new(&mut mem);
    let mut txn = Transaction::begin(&mem);
    q.write(&mut txn, 1).unwrap();
    q.write(&mut txn, 2).unwrap();
    assert!(mem.commit(txn));

    let mut t1 = Transaction::begin(&mem);
    let mut t2 = Transaction::begin(&mem);
    assert_eq!(q.read(&mut t1), Ok(1));
    assert_eq!(q.read(&mut t2), Ok(1));
    assert!(mem.commit(t1));
    assert!(!mem.commit(t2));

    // The losing transaction re-runs from scratch and gets the next item.
    let mut t2 = Transaction::begin(&mem);
    assert_eq!(q.read(&mut t2), Ok(2));
    assert!(mem.commit(t2));
}

#[test]
fn snapshot_is_consistent_under_concurrent_commit() {
    // A transaction begun against an empty queue keeps seeing the empty
    // snapshot even after another transaction commits an enqueue: its
    // reads stay mutually consistent, and the new item is visible only to
    // a transaction begun afterwards.
    let mut mem = Memory::new();
    let q = TQueue::new(&mut mem);

    let mut t1 = Transaction::begin(&mem);
    let mut t2 = Transaction::begin(&mem);
    q.write(&mut t2, 5).unwrap();
    assert!(mem.commit(t2));

    assert_eq!(q.read(&mut t1), Err(StmError::Retry));
    assert_eq!(q.read(&mut t1), Err(StmError::Retry));

    let mut t3 = Transaction::begin(&mem);
    assert_eq!(q.read(&mut t3), Ok(5));
    assert!(mem.commit(t3));
}

#[test]
fn enqueuer_and_ready_dequeuer_commit_independently() {
    // When `read` is non-empty, a dequeue touches only the `read`
    // variable and an enqueue touches only the `write` variable, so the
    // two commit without conflicting.
    let mut mem = Memory::new();
    let q = TQueue::new(&mut mem);
    let mut txn = Transaction::begin(&mem);
    q.write(&mut txn, 1).unwrap();
    q.write(&mut txn, 2).unwrap();
    assert!(mem.commit(txn));
    // This dequeue reverses [2, 1] into `read`, leaving item 2 ready.
    let mut txn = Transaction::begin(&mem);
    assert_eq!(q.read(&mut txn), Ok(1));
    assert!(mem.commit(txn));

    let mut deq = Transaction::begin(&mem);
    let mut enq = Transaction::begin(&mem);
    assert_eq!(q.read(&mut deq), Ok(2));
    q.write(&mut enq, 3).unwrap();
    assert!(mem.commit(deq));
    assert!(mem.commit(enq));

    let mut txn = Transaction::begin(&mem);
    assert_eq!(q.read(&mut txn), Ok(3));
    assert!(mem.commit(txn));
    let mut txn = Transaction::begin(&mem);
    assert_eq!(q.read(&mut txn), Err(StmError::Retry));
}

#[test]
fn queue_handle_clone_shares_contents() {
    // A cloned handle is the same queue, not a copy of its contents.
    let mut mem = Memory::new();
    let q = TQueue::new(&mut mem);
    let q2 = q.clone();
    let mut txn = Transaction::begin(&mem);
    q.write(&mut txn, 11).unwrap();
    assert!(mem.commit(txn));
    let mut txn = Transaction::begin(&mem);
    assert_eq!(q2.read(&mut txn), Ok(11));
    assert!(mem.commit(txn));
}
