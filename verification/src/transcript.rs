//! The transcript: the ordered record of messages produced by a run.

use crate::message::{Message, MessageView};
use vstd::prelude::*;

verus! {

/// The views of a sequence of messages.
pub open spec fn message_views(ms: Seq<Message>) -> Seq<MessageView> {
    ms.map_values(|m: Message| m@)
}

/// An ordered record of the messages produced during a run.
#[derive(Debug)]
pub struct Transcript {
    messages: Vec<Message>,
}

impl View for Transcript {
    type V = Seq<MessageView>;

    closed spec fn view(&self) -> Seq<MessageView> {
        message_views(self.messages@)
    }
}

impl Transcript {
    /// Creates a new, empty transcript.
    pub fn new() -> (r: Self)
        ensures
            r@ == Seq::<MessageView>::empty(),
    {
        Transcript { messages: Vec::new() }
    }

    /// Appends a message to the end of the transcript.
    pub fn push(&mut self, message: Message)
        ensures
            final(self)@ == old(self)@.push(message@),
    {
        self.messages.push(message);
        assert(message_views(self.messages@) =~= message_views(old(self).messages@).push(message@));
    }

    /// The number of messages recorded so far.
    pub fn len(&self) -> (r: usize)
        ensures
            r == self@.len(),
    {
        self.messages.len()
    }

    /// Whether the transcript contains no messages.
    pub fn is_empty(&self) -> (r: bool)
        ensures
            r == (self@.len() == 0),
    {
        self.messages.len() == 0
    }

    /// The recorded messages, in insertion order.
    pub fn messages(&self) -> (r: &[Message])
        ensures
            message_views(r@) == self@,
    {
        self.messages.as_slice()
    }

    /// Iterates over the recorded messages, in insertion order.
    pub fn iter(&self) -> (r: std::slice::Iter<'_, Message>)
        ensures
            message_views(vstd::std_specs::slice::into_iter_elts(r)) == self@,
    {
        self.messages.as_slice().iter()
    }

    /// The message at position `i`.
    pub fn get(&self, i: usize) -> (r: &Message)
        requires
            i < self@.len(),
        ensures
            r@ == self@[i as int],
    {
        &self.messages[i]
    }
}

impl Clone for Transcript {
    fn clone(&self) -> (r: Self)
        ensures
            r@ == self@,
    {
        let mut messages: Vec<Message> = Vec::new();
        let mut i: usize = 0;
        while i < self.messages.len()
            invariant
                i <= self.messages@.len(),
                messages@ == self.messages@.take(i as int),
            decreases self.messages@.len() - i,
        {
            messages.push(self.messages[i].clone());
            i = i + 1;
            assert(messages@ =~= self.messages@.take(i as int));
        }
        assert(self.messages@.take(i as int) =~= self.messages@);
        Transcript { messages }
    }
}

impl Default for Transcript {
    fn default() -> (r: Self)
        ensures
            r@ == Seq::<MessageView>::empty(),
    {
        Transcript::new()
    }
}

} // verus!
