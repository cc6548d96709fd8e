//! Putting messages into a queue.
use vstd::prelude::*;
use crate::queue_lib::queue::Queue;

verus! {

/// Puts messages into queues.
pub struct Producer {}

impl Producer {
    pub fn new() -> (p: Self) {
        Producer {  }
    }

    /// Puts `message` at the back of `queue`.
    pub fn push<T>(&self, queue: &mut Queue<T>, message: T)
        ensures
            final(queue)@ == old(queue)@.push(message),
    {
        queue.push_back(message);
    }
}

} // verus!
