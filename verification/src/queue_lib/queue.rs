//! The message queue itself.
use vstd::prelude::*;
use std::collections::VecDeque;

verus! {

/// A first-in first-out queue of messages.
pub struct Queue<T> {
    message_queue: VecDeque<T>,
}

impl<T> View for Queue<T> {
    type V = Seq<T>;

    /// The messages, oldest first.
    closed spec fn view(&self) -> Seq<T> {
        self.message_queue@
    }
}

impl<T> Queue<T> {
    /// An empty queue.
    pub fn new() -> (q: Self)
        ensures
            q@ == Seq::<T>::empty(),
    {
        Queue { message_queue: VecDeque::new() }
    }

    /// The number of messages waiting.
    pub fn len(&self) -> (n: usize)
        ensures
            n == self@.len(),
    {
        self.message_queue.len()
    }

    /// Whether no message is waiting.
    pub fn is_empty(&self) -> (r: bool)
        ensures
            r == (self@.len() == 0),
    {
        self.message_queue.len() == 0
    }

    /// Puts `message` at the back.
    pub fn push_back(&mut self, message: T)
        ensures
            final(self)@ == old(self)@.push(message),
    {
        self.message_queue.push_back(message);
    }

    /// Takes the oldest message, if any.
    pub fn pop_front(&mut self) -> (r: Option<T>)
        ensures
            old(self)@.len() == 0 ==> r is None && final(self)@ == old(self)@,
            old(self)@.len() > 0 ==> r == Some(old(self)@[0]) && final(self)@
                == old(self)@.drop_first(),
    {
        self.message_queue.pop_front()
    }
}

} // verus!

verus! {

/// A queue hands messages out in the order they were put in: after pushing
/// `message`, the oldest message is the old front (or `message` when the queue
/// was empty), and popping leaves the rest followed by `message`.
pub proof fn lemma_queue_is_first_in_first_out<T>(messages: Seq<T>, message: T)
    ensures
        messages.push(message)[0] == if messages.len() == 0 {
            message
        } else {
            messages[0]
        },
        messages.push(message).drop_first() == if messages.len() == 0 {
            Seq::<T>::empty()
        } else {
            messages.drop_first().push(message)
        },
{
    assert(messages.push(message).drop_first() =~= if messages.len() == 0 {
        Seq::<T>::empty()
    } else {
        messages.drop_first().push(message)
    });
}

} // verus!
