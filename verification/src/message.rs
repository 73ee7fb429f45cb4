//! Messages: the edges of the interaction graph.

use crate::agent::AgentId;
use vstd::prelude::*;
use vstd::std_specs::cmp::PartialEqSpecImpl;

verus! {

/// The role a [`Message`] plays in a critique.
#[derive(Debug, Clone, Copy, PartialEq, Eq, Structural)]
pub enum MessageKind {
    /// The subject broadcast to critics.
    Prompt,
    /// A substantive critique of the subject or another message.
    Critique,
    /// A counter-argument to a prior critique.
    Rebuttal,
    /// A clarifying question.
    Question,
    /// An explicit concession.
    Concession,
    /// A final adjudication.
    Verdict,
}

/// The stable lowercase label of a kind.
pub open spec fn kind_label(k: MessageKind) -> Seq<char> {
    match k {
        MessageKind::Prompt => "prompt"@,
        MessageKind::Critique => "critique"@,
        MessageKind::Rebuttal => "rebuttal"@,
        MessageKind::Question => "question"@,
        MessageKind::Concession => "concession"@,
        MessageKind::Verdict => "verdict"@,
    }
}

/// The kind a label names, if any.
pub open spec fn kind_of_label(t: Seq<char>) -> Option<MessageKind> {
    if t == "prompt"@ {
        Some(MessageKind::Prompt)
    } else if t == "critique"@ {
        Some(MessageKind::Critique)
    } else if t == "rebuttal"@ {
        Some(MessageKind::Rebuttal)
    } else if t == "question"@ {
        Some(MessageKind::Question)
    } else if t == "concession"@ {
        Some(MessageKind::Concession)
    } else if t == "verdict"@ {
        Some(MessageKind::Verdict)
    } else {
        None
    }
}

impl MessageKind {
    /// A stable lowercase label for the variant.
    pub fn label(&self) -> (r: &'static str)
        ensures
            r@ == kind_label(*self),
    {
        match self {
            MessageKind::Prompt => "prompt",
            MessageKind::Critique => "critique",
            MessageKind::Rebuttal => "rebuttal",
            MessageKind::Question => "question",
            MessageKind::Concession => "concession",
            MessageKind::Verdict => "verdict",
        }
    }

    /// Parses a label produced by [`MessageKind::label`]; a text that is no
    /// label is refused with that text.
    pub fn from_label(text: &str) -> (r: Result<Self, String>)
        ensures
            kind_of_label(text@) matches Some(k) ==> (r matches Ok(k2) && k2 == k),
            kind_of_label(text@) is None ==> (r matches Err(e) && e@ == text@),
    {
        if crate::text::str_eq(text, "prompt") {
            Ok(MessageKind::Prompt)
        } else if crate::text::str_eq(text, "critique") {
            Ok(MessageKind::Critique)
        } else if crate::text::str_eq(text, "rebuttal") {
            Ok(MessageKind::Rebuttal)
        } else if crate::text::str_eq(text, "question") {
            Ok(MessageKind::Question)
        } else if crate::text::str_eq(text, "concession") {
            Ok(MessageKind::Concession)
        } else if crate::text::str_eq(text, "verdict") {
            Ok(MessageKind::Verdict)
        } else {
            Err(crate::text::string_of(text))
        }
    }
}

/// The abstract content of a message.
pub struct MessageView {
    pub sender: Seq<char>,
    pub recipient: Option<Seq<char>>,
    pub kind: MessageKind,
    pub text: Seq<char>,
}

/// A single message routed along an edge of the interaction graph.
///
/// `recipient` is `None` for broadcasts.
#[derive(Debug)]
pub struct Message {
    sender: AgentId,
    recipient: Option<AgentId>,
    kind: MessageKind,
    text: String,
}

/// The view of an optional agent id.
pub open spec fn opt_id_view(o: Option<AgentId>) -> Option<Seq<char>> {
    match o {
        Some(id) => Some(id@),
        None => None,
    }
}

/// The view of an optional borrowed agent id.
pub open spec fn opt_ref_view(o: Option<&AgentId>) -> Option<Seq<char>> {
    match o {
        Some(id) => Some(id@),
        None => None,
    }
}

impl View for Message {
    type V = MessageView;

    closed spec fn view(&self) -> MessageView {
        MessageView {
            sender: self.sender@,
            recipient: opt_id_view(self.recipient),
            kind: self.kind,
            text: self.text@,
        }
    }
}

impl Message {
    /// Creates a new message.
    pub fn new(sender: AgentId, recipient: Option<AgentId>, kind: MessageKind, text: &str) -> (r:
        Self)
        ensures
            r@ == (MessageView {
                sender: sender@,
                recipient: opt_id_view(recipient),
                kind,
                text: text@,
            }),
    {
        Message { sender, recipient, kind, text: String::from_str(text) }
    }

    /// Creates a message that takes ownership of its text.
    pub fn with_text(sender: AgentId, recipient: Option<AgentId>, kind: MessageKind, text: String) -> (r:
        Self)
        ensures
            r@ == (MessageView {
                sender: sender@,
                recipient: opt_id_view(recipient),
                kind,
                text: text@,
            }),
    {
        Message { sender, recipient, kind, text }
    }

    /// Who sent this message.
    pub fn sender(&self) -> (r: &AgentId)
        ensures
            r@ == self@.sender,
    {
        &self.sender
    }

    /// Who this message is addressed to, if not a broadcast.
    pub fn recipient(&self) -> (r: Option<&AgentId>)
        ensures
            opt_ref_view(r) == self@.recipient,
    {
        match &self.recipient {
            Some(id) => Some(id),
            None => None,
        }
    }

    /// The role this message plays.
    pub fn kind(&self) -> (r: MessageKind)
        ensures
            r == self@.kind,
    {
        self.kind
    }

    /// The message body.
    pub fn text(&self) -> (r: &str)
        ensures
            r@ == self@.text,
    {
        self.text.as_str()
    }
}

impl Clone for Message {
    fn clone(&self) -> (r: Self)
        ensures
            r == *self,
    {
        let recipient = match &self.recipient {
            Some(id) => Some(id.clone()),
            None => None,
        };
        Message {
            sender: self.sender.clone(),
            recipient,
            kind: self.kind,
            text: self.text.clone(),
        }
    }
}

impl PartialEq for Message {
    fn eq(&self, other: &Self) -> (r: bool) {
        let same_recipient = match (&self.recipient, &other.recipient) {
            (Some(a), Some(b)) => a == b,
            (None, None) => true,
            _ => false,
        };
        self.sender == other.sender && same_recipient && self.kind == other.kind && self.text
            == other.text
    }
}

impl PartialEqSpecImpl for Message {
    open spec fn obeys_eq_spec() -> bool {
        true
    }

    open spec fn eq_spec(&self, other: &Self) -> bool {
        self@ == other@
    }
}

impl Eq for Message {
}

} // verus!
