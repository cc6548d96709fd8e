//! Putting integers into a numbered queue.
use vstd::prelude::*;
use crate::int_queue_lib::queue::{Queue, QueueOp};

verus! {

/// Puts integers into numbered queues.
pub struct Producer {}

impl Producer {
    pub fn new() -> (p: Self) {
        Producer {  }
    }

    /// Draws an operation number and puts `message` at the back of `queue`.
    pub fn push(&self, queue: &mut Queue, message: i32)
        requires
            old(queue)@.max_worker_id < usize::MAX,
        ensures
            final(queue)@.max_worker_id == old(queue)@.max_worker_id + 1,
            final(queue)@.messages == old(queue)@.messages.push(message),
            final(queue)@ == old(queue)@.after(QueueOp::Push(message)),
    {
        let _id = queue.inc_max_worker_id();
        queue.push_back(message);
    }
}

} // verus!
