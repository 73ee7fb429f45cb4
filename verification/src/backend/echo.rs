//! The deterministic echo backend.

use crate::agent::{Agent, AgentId};
use crate::error::PraxisError;
use crate::message::{Message, MessageKind, MessageView};
use crate::persona::Persona;
use vstd::prelude::*;

verus! {

/// The kind an adversarial critic replies with: a prompt elicits a
/// critique, a critique elicits a rebuttal, anything else is mirrored.
pub open spec fn reply_kind(incoming: MessageKind) -> MessageKind {
    match incoming {
        MessageKind::Prompt => MessageKind::Critique,
        MessageKind::Critique => MessageKind::Rebuttal,
        other => other,
    }
}

/// Computes [`reply_kind`].
pub fn expected_reply_kind(incoming: MessageKind) -> (r: MessageKind)
    ensures
        r == reply_kind(incoming),
{
    match incoming {
        MessageKind::Prompt => MessageKind::Critique,
        MessageKind::Critique => MessageKind::Rebuttal,
        other => other,
    }
}

/// The reply an echo agent `id` gives to `msg`.
pub open spec fn echo_reply(id: Seq<char>, msg: MessageView) -> MessageView {
    MessageView {
        sender: id,
        recipient: Some(msg.sender),
        kind: reply_kind(msg.kind),
        text: msg.text,
    }
}

/// A backend that deterministically models an adversarial critic.
#[derive(Debug)]
pub struct EchoAgent {
    id: AgentId,
    persona: Persona,
}

impl EchoAgent {
    /// Creates a new echo agent with the given identity and persona.
    pub fn new(id: AgentId, persona: Persona) -> (r: Self)
        ensures
            r.spec_id() == id,
            r.spec_persona() == persona,
    {
        EchoAgent { id, persona }
    }

    /// The agent's identity.
    pub closed spec fn spec_id(&self) -> AgentId {
        self.id
    }

    /// The agent's persona.
    pub closed spec fn spec_persona(&self) -> Persona {
        self.persona
    }

    /// The reply to `msg`: authored by this agent, addressed back to the
    /// sender, with the adversarial reply kind and the same text.
    pub fn reply(&self, msg: &Message) -> (r: Message)
        ensures
            r@ == echo_reply(self.spec_id()@, msg@),
    {
        Message::with_text(
            self.id.clone(),
            Some(msg.sender().clone()),
            expected_reply_kind(msg.kind()),
            crate::text::string_of(msg.text()),
        )
    }
}

impl Agent for EchoAgent {
    open spec fn id_known(&self) -> bool {
        true
    }

    open spec fn agent_id(&self) -> Seq<char> {
        self.spec_id()@
    }

    open spec fn echoes(&self) -> bool {
        true
    }

    fn id(&self) -> (r: &AgentId)
        ensures
            *r == self.spec_id(),
    {
        &self.id
    }

    fn persona(&self) -> (r: &Persona)
        ensures
            *r == self.spec_persona(),
    {
        &self.persona
    }

    fn as_echo(&self) -> (r: Option<EchoAgent>)
        ensures
            r matches Some(e) && e.spec_id() == self.spec_id() && e.spec_persona() == self.spec_persona(),
    {
        Some(self.clone())
    }

    fn respond(&mut self, msg: &Message) -> (r: Result<Message, PraxisError>)
        ensures
            *final(self) == *old(self),
            r matches Ok(m) && m@ == echo_reply(old(self).spec_id()@, msg@),
    {
        Ok(self.reply(msg))
    }
}

impl Clone for EchoAgent {
    fn clone(&self) -> (r: Self)
        ensures
            r.spec_id() == self.spec_id(),
            r.spec_persona() == self.spec_persona(),
    {
        EchoAgent { id: self.id.clone(), persona: self.persona.clone() }
    }
}

} // verus!
