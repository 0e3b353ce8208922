//! The shared queue: one first-in first-out conduit of messages.

use crate::message::Message;
use std::collections::VecDeque;
use vstd::prelude::*;

verus! {

/// A first-in first-out queue of messages without a capacity limit.
///
/// Its view is the sequence of waiting messages, oldest first.
pub struct Queue<J> {
    items: VecDeque<Message<J>>,
}

impl<J> View for Queue<J> {
    type V = Seq<Message<J>>;

    closed spec fn view(&self) -> Seq<Message<J>> {
        self.items@
    }
}

impl<J> Queue<J> {
    /// An empty queue.
    pub fn new() -> (queue: Self)
        ensures
            queue@ == Seq::<Message<J>>::empty(),
    {
        Queue { items: VecDeque::new() }
    }

    /// The number of waiting messages.
    pub fn len(&self) -> (n: usize)
        ensures
            n == self@.len(),
    {
        self.items.len()
    }

    /// Whether no message waits.
    pub fn is_empty(&self) -> (b: bool)
        ensures
            b == (self@.len() == 0),
    {
        self.items.len() == 0
    }

    /// Appends `message` behind every message that already waits.
    pub fn enqueue(&mut self, message: Message<J>)
        ensures
            final(self)@ == old(self)@.push(message),
    {
        self.items.push_back(message);
    }

    /// Removes and returns the oldest message; `None`, and no change, when
    /// the queue is empty.
    pub fn dequeue(&mut self) -> (front: Option<Message<J>>)
        ensures
            old(self)@.len() == 0 ==> front is None && final(self)@ == old(self)@,
            old(self)@.len() > 0 ==> front == Some(old(self)@[0]) && final(self)@ == old(
                self,
            )@.drop_first(),
    {
        self.items.pop_front()
    }
}

} // verus!
