//! The bounded queue between a rule's listener and its dispatch loop.

use crate::message::{Message, MessageView};
use std::collections::VecDeque;
use vstd::prelude::*;

verus! {

/// The messages in `messages`, each taken by its value.
pub open spec fn message_views(messages: Seq<Message>) -> Seq<MessageView> {
    Seq::new(messages.len(), |i: int| messages[i]@)
}

/// A first-in, first-out queue of messages that holds at most `capacity` of
/// them. A message that arrives while the queue is full is turned away; the
/// ones that wait are never pushed out.
#[derive(Debug)]
pub struct MessageQueue {
    capacity: usize,
    waiting: VecDeque<Message>,
}

impl View for MessageQueue {
    type V = Seq<MessageView>;

    closed spec fn view(&self) -> Seq<MessageView> {
        message_views(self.waiting@)
    }
}

impl MessageQueue {
    #[verifier::type_invariant]
    spec fn bounded(&self) -> bool {
        self.waiting@.len() <= self.capacity
    }

    /// The number of messages that the queue can hold.
    pub closed spec fn spec_capacity(&self) -> usize {
        self.capacity
    }

    /// An empty queue for at most `capacity` messages.
    pub fn new(capacity: usize) -> (r: MessageQueue)
        ensures
            r@ == Seq::<MessageView>::empty(),
            r.spec_capacity() == capacity,
    {
        let waiting: VecDeque<Message> = VecDeque::new();
        assert(message_views(waiting@) =~= Seq::<MessageView>::empty());
        MessageQueue { capacity, waiting }
    }

    #[verifier::when_used_as_spec(spec_capacity)]
    pub fn capacity(&self) -> (r: usize)
        ensures
            r == self.spec_capacity(),
    {
        self.capacity
    }

    /// The number of messages that wait; never more than the capacity.
    pub fn len(&self) -> (r: usize)
        ensures
            r == self@.len(),
            r <= self.spec_capacity(),
    {
        proof {
            use_type_invariant(self);
        }
        self.waiting.len()
    }

    pub fn is_empty(&self) -> (r: bool)
        ensures
            r == (self@.len() == 0),
    {
        self.waiting.len() == 0
    }

    /// Takes `message` in behind the messages that wait, and says `true`;
    /// or, where the queue is full, turns it away, leaves the queue as it
    /// is, and says `false`.
    pub fn push(&mut self, message: Message) -> (accepted: bool)
        ensures
            final(self).spec_capacity() == old(self).spec_capacity(),
            accepted == (old(self)@.len() < old(self).spec_capacity()),
            accepted ==> final(self)@ == old(self)@.push(message@),
            !accepted ==> final(self)@ == old(self)@,
    {
        proof {
            use_type_invariant(&*self);
        }
        if self.waiting.len() < self.capacity {
            let ghost before = self@;
            let mut waiting: VecDeque<Message> = VecDeque::new();
            std::mem::swap(&mut waiting, &mut self.waiting);
            waiting.push_back(message);
            assert(message_views(waiting@) =~= before.push(message@));
            self.waiting = waiting;
            true
        } else {
            false
        }
    }

    /// Takes out the message that has waited longest, if any waits.
    pub fn pop(&mut self) -> (r: Option<Message>)
        ensures
            final(self).spec_capacity() == old(self).spec_capacity(),
            r is Some == (old(self)@.len() > 0),
            r matches Some(message) ==> message@ == old(self)@.first() && final(self)@ == old(
                self,
            )@.drop_first(),
            r is None ==> final(self)@ == old(self)@,
    {
        proof {
            use_type_invariant(&*self);
        }
        let ghost before = self@;
        let mut waiting: VecDeque<Message> = VecDeque::new();
        std::mem::swap(&mut waiting, &mut self.waiting);
        let front = waiting.pop_front();
        proof {
            if front is Some {
                assert(message_views(waiting@) =~= before.drop_first());
            }
        }
        self.waiting = waiting;
        front
    }

    /// Turns every waiting message away. Says how many there were.
    pub fn clear(&mut self) -> (dropped: usize)
        ensures
            final(self).spec_capacity() == old(self).spec_capacity(),
            final(self)@ == Seq::<MessageView>::empty(),
            dropped == old(self)@.len(),
    {
        let dropped = self.waiting.len();
        let waiting: VecDeque<Message> = VecDeque::new();
        assert(message_views(waiting@) =~= Seq::<MessageView>::empty());
        self.waiting = waiting;
        dropped
    }
}

} // verus!
