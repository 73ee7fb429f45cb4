//! The provider boundary: the [`Agent`] trait and [`AgentId`].

use crate::error::PraxisError;
use crate::message::{Message, MessageView};
use crate::persona::Persona;
use vstd::prelude::*;
use vstd::std_specs::cmp::PartialEqSpecImpl;

verus! {

/// A stable identifier for an agent within a single run, compared by name.
#[derive(Debug)]
pub struct AgentId(String);

impl View for AgentId {
    type V = Seq<char>;

    closed spec fn view(&self) -> Seq<char> {
        self.0@
    }
}

impl AgentId {
    /// Creates a new agent identifier.
    pub fn new(name: &str) -> (r: Self)
        ensures
            r@ == name@,
    {
        AgentId(String::from_str(name))
    }

    /// Creates an identifier that takes ownership of `name`.
    pub fn from_string(name: String) -> (r: Self)
        ensures
            r@ == name@,
    {
        AgentId(name)
    }

    /// The identifying name as a string slice.
    pub fn as_str(&self) -> (r: &str)
        ensures
            r@ == self@,
    {
        self.0.as_str()
    }
}

impl Clone for AgentId {
    fn clone(&self) -> (r: Self)
        ensures
            r == *self,
    {
        AgentId(self.0.clone())
    }
}

impl PartialEq for AgentId {
    fn eq(&self, other: &Self) -> (r: bool) {
        self.0 == other.0
    }
}

impl PartialEqSpecImpl for AgentId {
    open spec fn obeys_eq_spec() -> bool {
        true
    }

    open spec fn eq_spec(&self, other: &Self) -> bool {
        self@ == other@
    }
}

impl Eq for AgentId {
}

/// What an agent's answer gives: the message, or the error.
pub open spec fn reply_view(r: Result<Message, PraxisError>) -> Result<MessageView, PraxisError> {
    match r {
        Ok(m) => Ok(m@),
        Err(e) => Err(e),
    }
}

/// The provider boundary: every backend implements `Agent`.
///
/// `respond` takes `&mut self` so stateful backends can evolve between calls.
/// What a backend answers is up to it. A backend may declare what is known
/// of it: the id it reports, and that it answers each message with its echo
/// (see [`echo_reply`](crate::backend::echo::echo_reply)); by default
/// nothing is known.
pub trait Agent {
    /// Whether the id this agent reports is known ([`Agent::agent_id`]).
    open spec fn id_known(&self) -> bool {
        false
    }

    /// The id this agent reports, where it is known.
    open spec fn agent_id(&self) -> Seq<char> {
        Seq::empty()
    }

    /// Whether this agent answers every message with its echo.
    open spec fn echoes(&self) -> bool {
        false
    }

    /// Whether this agent keeps a log of the messages it received
    /// ([`Agent::exchanges`]); by default it does not.
    open spec fn logs(&self) -> bool {
        false
    }

    /// The messages this agent received and what it answered, in order,
    /// where it keeps a log.
    open spec fn exchanges(&self) -> Seq<(MessageView, Result<MessageView, PraxisError>)> {
        Seq::empty()
    }

    /// This agent's stable identifier.
    fn id(&self) -> (r: &AgentId)
        ensures
            self.id_known() ==> r@ == self.agent_id(),
    ;

    /// The persona this agent applies when critiquing.
    fn persona(&self) -> &Persona;

    /// This agent as the library's echo agent, when it is one: a copy with
    /// the same id, which answers as this agent does. Other backends answer
    /// `None`.
    fn as_echo(&self) -> (r: Option<crate::backend::echo::EchoAgent>)
        ensures
            self.echoes() ==> r is Some,
            r matches Some(e) ==> self.id_known() && e.spec_id()@ == self.agent_id(),
    ;

    /// Produces this agent's response to an incoming message. The agent
    /// keeps what is known of it.
    fn respond(&mut self, msg: &Message) -> (r: Result<Message, PraxisError>)
        ensures
            final(self).id_known() == old(self).id_known(),
            final(self).agent_id() == old(self).agent_id(),
            final(self).echoes() == old(self).echoes(),
            final(self).logs() == old(self).logs(),
            old(self).logs() ==> final(self).exchanges() == old(self).exchanges().push((msg@, reply_view(r))),
            old(self).echoes() && old(self).id_known() ==> (r matches Ok(m) && m@
                == crate::backend::echo::echo_reply(old(self).agent_id(), msg@)),
    ;
}

} // verus!
