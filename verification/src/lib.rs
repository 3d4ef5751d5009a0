//! A blocking, composable FIFO queue built on a software-transactional-memory
//! substrate.
//!
//! The queue keeps its pending items in two transactional variables, each
//! holding an immutable, structurally shared list: `write` accumulates newly
//! enqueued items (newest first) and `read` holds items ready to be dequeued
//! (oldest first).  A dequeue that finds both lists empty does not fail: it
//! asks the enclosing transaction to suspend and retry once another
//! transaction commits an enqueue.

pub mod laws;
pub mod list;
pub mod stm;
pub mod tqueue;
