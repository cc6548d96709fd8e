//! The numbered integer queue.
use vstd::prelude::*;
use std::collections::VecDeque;

verus! {

/// What an integer queue holds: the number of the last operation and the
/// messages, oldest first.
pub struct QueueState {
    pub max_worker_id: nat,
    pub messages: Seq<i32>,
}

/// A numbered operation on an integer queue.
#[derive(Debug, Clone, Copy, PartialEq, Eq, Structural)]
pub enum QueueOp {
    Push(i32),
    Pop,
}

impl QueueState {
    /// The state after `op`: it draws the next number; a push adds its message
    /// at the back, a pop takes the oldest message when there is one.
    pub open spec fn after(self, op: QueueOp) -> QueueState {
        match op {
            QueueOp::Push(message) => QueueState {
                max_worker_id: self.max_worker_id + 1,
                messages: self.messages.push(message),
            },
            QueueOp::Pop => QueueState {
                max_worker_id: self.max_worker_id + 1,
                messages: if self.messages.len() == 0 {
                    self.messages
                } else {
                    self.messages.drop_first()
                },
            },
        }
    }

    /// The state after the operations `ops`, in order.
    pub open spec fn after_all(self, ops: Seq<QueueOp>) -> QueueState
        decreases ops.len(),
    {
        if ops.len() == 0 {
            self
        } else {
            self.after_all(ops.drop_last()).after(ops.last())
        }
    }
}

/// Operations are numbered one after another: after any sequence of pushes
/// and pops the counter has moved on by their number, and the `k`-th operation
/// (from 0) got the number one above the counter it started from plus `k`.
/// From a new queue the operations get the distinct numbers `1..=n` in order.
pub proof fn lemma_operations_are_numbered_in_order(s: QueueState, ops: Seq<QueueOp>)
    ensures
        s.after_all(ops).max_worker_id == s.max_worker_id + ops.len(),
        forall|k: int|
            0 <= k < ops.len() ==> #[trigger] s.after_all(ops.take(k + 1)).max_worker_id
                == s.max_worker_id + k + 1,
    decreases ops.len(),
{
    if ops.len() > 0 {
        lemma_operations_are_numbered_in_order(s, ops.drop_last());
        assert forall|k: int| 0 <= k < ops.len() implies #[trigger] s.after_all(
            ops.take(k + 1),
        ).max_worker_id == s.max_worker_id + k + 1 by {
            if k < ops.len() - 1 {
                assert(ops.take(k + 1) == ops.drop_last().take(k + 1));
            } else {
                assert(ops.take(k + 1) == ops);
            }
        }
    }
}

/// A first-in first-out queue of integers; every push and pop is numbered.
pub struct Queue {
    max_worker_id: usize,
    message_queue: VecDeque<i32>,
}

impl View for Queue {
    type V = QueueState;

    closed spec fn view(&self) -> QueueState {
        QueueState { max_worker_id: self.max_worker_id as nat, messages: self.message_queue@ }
    }
}

impl Queue {
    /// An empty queue whose operations are not numbered yet.
    pub fn new() -> (q: Self)
        ensures
            q@.max_worker_id == 0,
            q@.messages == Seq::<i32>::empty(),
    {
        Queue { max_worker_id: 0, message_queue: VecDeque::new() }
    }

    /// Draws the number of the next operation.
    pub fn inc_max_worker_id(&mut self) -> (id: usize)
        requires
            old(self)@.max_worker_id < usize::MAX,
        ensures
            id == old(self)@.max_worker_id + 1,
            final(self)@.max_worker_id == id,
            final(self)@.messages == old(self)@.messages,
    {
        self.max_worker_id = self.max_worker_id + 1;
        self.max_worker_id
    }

    /// Puts `message` at the back, as a numbered operation.
    pub fn push(&mut self, message: i32)
        requires
            old(self)@.max_worker_id < usize::MAX,
        ensures
            final(self)@.max_worker_id == old(self)@.max_worker_id + 1,
            final(self)@.messages == old(self)@.messages.push(message),
            final(self)@ == old(self)@.after(QueueOp::Push(message)),
    {
        self.max_worker_id = self.max_worker_id + 1;
        self.message_queue.push_back(message);
    }

    /// Takes the oldest message, as a numbered operation; `None` when the queue
    /// is empty.
    pub fn pop(&mut self) -> (r: Option<i32>)
        requires
            old(self)@.max_worker_id < usize::MAX,
        ensures
            final(self)@.max_worker_id == old(self)@.max_worker_id + 1,
            old(self)@.messages.len() == 0 ==> r is None && final(self)@.messages == old(self)@.messages,
            old(self)@.messages.len() > 0 ==> r == Some(old(self)@.messages[0]) && final(self)@.messages == old(self)@.messages.drop_first(),
            final(self)@ == old(self)@.after(QueueOp::Pop),
    {
        self.max_worker_id = self.max_worker_id + 1;
        self.message_queue.pop_front()
    }

    /// Puts `message` at the back without numbering a new operation.
    pub fn push_back(&mut self, message: i32)
        ensures
            final(self)@.max_worker_id == old(self)@.max_worker_id,
            final(self)@.messages == old(self)@.messages.push(message),
    {
        self.message_queue.push_back(message);
    }

    /// Takes the oldest message without numbering a new operation; `None`
    /// when the queue is empty.
    pub fn take_front(&mut self) -> (r: Option<i32>)
        ensures
            final(self)@.max_worker_id == old(self)@.max_worker_id,
            old(self)@.messages.len() == 0 ==> r is None && final(self)@.messages == old(self)@.messages,
            old(self)@.messages.len() > 0 ==> r == Some(old(self)@.messages[0]) && final(self)@.messages == old(self)@.messages.drop_first(),
    {
        self.message_queue.pop_front()
    }
}

} // verus!
