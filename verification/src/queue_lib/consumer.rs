//! Taking messages out of a queue.
use vstd::prelude::*;
use crate::queue_lib::queue::Queue;

verus! {

/// Takes messages out of queues.
pub struct Consumer {}

impl Consumer {
    pub fn new() -> (c: Self) {
        Consumer {  }
    }

    /// Takes the oldest message of `queue`. `None` means that the queue is
    /// empty: the caller waits until a producer has pushed and asks again.
    pub fn pop<T>(&self, queue: &mut Queue<T>) -> (r: Option<T>)
        ensures
            old(queue)@.len() == 0 ==> r is None && final(queue)@ == old(queue)@,
            old(queue)@.len() > 0 ==> r == Some(old(queue)@[0]) && final(queue)@
                == old(queue)@.drop_first(),
    {
        queue.pop_front()
    }
}

} // verus!
