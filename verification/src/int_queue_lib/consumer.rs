//! Taking integers out of a numbered queue.
use vstd::prelude::*;
use crate::int_queue_lib::queue::{Queue, QueueOp};

verus! {

/// Takes integers out of numbered queues.
pub struct Consumer {}

impl Consumer {
    pub fn new() -> (c: Self) {
        Consumer {  }
    }

    /// Draws an operation number and takes the oldest message of `queue`.
    /// `None` means that the queue is empty: the caller waits until a producer
    /// has pushed and takes the message with `Queue::take_front`.
    pub fn pop(&self, queue: &mut Queue) -> (r: Option<i32>)
        requires
            old(queue)@.max_worker_id < usize::MAX,
        ensures
            final(queue)@.max_worker_id == old(queue)@.max_worker_id + 1,
            old(queue)@.messages.len() == 0 ==> r is None && final(queue)@.messages == old(queue)@.messages,
            old(queue)@.messages.len() > 0 ==> r == Some(old(queue)@.messages[0]) && final(queue)@.messages == old(queue)@.messages.drop_first(),
            final(queue)@ == old(queue)@.after(QueueOp::Pop),
    {
        let _id = queue.inc_max_worker_id();
        queue.take_front()
    }
}

} // verus!
