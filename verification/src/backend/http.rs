//! The OpenAI-compatible HTTP backend: the computing half.
//!
//! What an HTTP agent does around the network round-trip is stated here:
//! the chat conversation it sends ([`render_prompt`]), the endpoint it calls
//! ([`chat_completions_url`]), how a reply body becomes a [`Message`]
//! ([`parse_completion_response`]) and what each attempt's outcome decides
//! under the retry policy ([`attempt_step`]). The round-trip itself, its
//! runtime and its sleeps are the application's.

use crate::agent::AgentId;
use crate::backend::echo::{expected_reply_kind, reply_kind};
use crate::error::PraxisError;
use crate::message::{kind_label, Message, MessageKind, MessageView, opt_id_view};
use crate::persona::{Persona, PersonaView};
use crate::text::{decimal, decimal_string, push_str, string_of};
use vstd::prelude::*;

verus! {

/// A single chat message in the OpenAI-compatible conversation format.
#[derive(Debug)]
pub struct ChatMessage {
    /// `system`, `user`, or `assistant`.
    pub role: String,
    /// The message content.
    pub content: String,
}

impl Clone for ChatMessage {
    fn clone(&self) -> (r: Self)
        ensures
            r.role@ == self.role@,
            r.content@ == self.content@,
    {
        ChatMessage { role: self.role.clone(), content: self.content.clone() }
    }
}

/// The system turn describing a persona: its name, then its framing and
/// focus when it has them.
pub open spec fn persona_system_prompt(p: PersonaView) -> Seq<char> {
    "You are "@ + p.name + ", a critic on a peer-review panel."@ + match p.framing {
        Some(f) => " Framing: "@ + f + "."@,
        None => Seq::empty(),
    } + match p.focus {
        Some(f) => " Focus: "@ + f + "."@,
        None => Seq::empty(),
    }
}

/// The user turn carrying an incoming message and the kind the reply must
/// have.
pub open spec fn incoming_user_prompt(m: MessageView) -> Seq<char> {
    "From "@ + m.sender + ": ["@ + kind_label(m.kind) + "] "@ + m.text + "\n\nRespond with kind: "@
        + kind_label(reply_kind(m.kind)) + "."@
}

/// Renders the chat conversation for a single response: a system turn
/// describing the persona, then a user turn with the incoming message and
/// the kind the reply must have.
pub fn render_prompt(persona: &Persona, incoming: &Message) -> (r: Vec<ChatMessage>)
    ensures
        r@.len() == 2,
        r@[0].role@ == "system"@,
        r@[0].content@ == persona_system_prompt(persona@),
        r@[1].role@ == "user"@,
        r@[1].content@ == incoming_user_prompt(incoming@),
{
    let mut system = string_of("You are ");
    push_str(&mut system, persona.name());
    push_str(&mut system, ", a critic on a peer-review panel.");
    let ghost s1 = system@;
    match persona.framing() {
        Some(f) => {
            push_str(&mut system, " Framing: ");
            push_str(&mut system, f);
            push_str(&mut system, ".");
        },
        None => {},
    }
    let ghost s2 = system@;
    match persona.focus() {
        Some(f) => {
            push_str(&mut system, " Focus: ");
            push_str(&mut system, f);
            push_str(&mut system, ".");
        },
        None => {},
    }
    assert(system@ =~= persona_system_prompt(persona@));
    let reply = expected_reply_kind(incoming.kind());
    let mut user = string_of("From ");
    push_str(&mut user, incoming.sender().as_str());
    push_str(&mut user, ": [");
    push_str(&mut user, incoming.kind().label());
    push_str(&mut user, "] ");
    push_str(&mut user, incoming.text());
    push_str(&mut user, "\n\nRespond with kind: ");
    push_str(&mut user, reply.label());
    push_str(&mut user, ".");
    assert(user@ =~= incoming_user_prompt(incoming@));
    let mut r: Vec<ChatMessage> = Vec::new();
    r.push(ChatMessage { role: string_of("system"), content: system });
    r.push(ChatMessage { role: string_of("user"), content: user });
    r
}

/// What `serde_json` makes of a chat-completions reply body: `Err` with the
/// parser's message when the body is not JSON, else the string at
/// `choices[0].message.content`, if there is one.
pub uninterp spec fn completion_content(body: Seq<char>) -> Result<Option<Seq<char>>, Seq<char>>;

/// Parses `body` with `serde_json::from_str` into a `serde_json::Value` and
/// reads `choices[0].message.content` as a string with `Value::get` and
/// `Value::as_str`. The contract names the result [`completion_content`]
/// and claims nothing else of it: what `serde_json` accepts and how it words
/// its error are its own.
#[verifier::external_body]
pub(crate) fn read_completion_content(body: &str) -> (r: Result<Option<String>, String>)
    ensures
        match r {
            Ok(Some(c)) => completion_content(body@) == Ok::<Option<Seq<char>>, Seq<char>>(Some(c@)),
            Ok(None) => completion_content(body@) == Ok::<Option<Seq<char>>, Seq<char>>(None),
            Err(e) => completion_content(body@) == Err::<Option<Seq<char>>, Seq<char>>(e@),
        },
{
    match serde_json::from_str::<serde_json::Value>(body) {
        Err(e) => Err(e.to_string()),
        Ok(v) => Ok(v
            .get("choices")
            .and_then(|c| c.get(0))
            .and_then(|c| c.get("message"))
            .and_then(|m| m.get("content"))
            .and_then(|c| c.as_str())
            .map(|s| s.to_owned())),
    }
}

/// The detail of a failure for a reply with no content.
pub open spec fn no_content_detail() -> Seq<char> {
    "response had no choices[0].message.content"@
}

/// The message, or the failure, that a parsed reply gives.
pub open spec fn completion_outcome(
    outcome: Result<Option<Seq<char>>, Seq<char>>,
    author: Seq<char>,
    kind: MessageKind,
) -> Result<MessageView, (Seq<char>, Seq<char>)> {
    match outcome {
        Err(e) => Err((author, "invalid JSON response: "@ + e)),
        Ok(None) => Err((author, no_content_detail())),
        Ok(Some(c)) => Ok(MessageView { sender: author, recipient: None, kind, text: c }),
    }
}

/// The agent-failure an `(agent, detail)` pair stands for.
pub open spec fn is_agent_failure(e: PraxisError, failure: (Seq<char>, Seq<char>)) -> bool {
    e matches PraxisError::AgentFailure { agent_id, detail } && agent_id@ == failure.0 && detail@
        == failure.1
}

/// Turns a parsed reply into a message authored by `author` with `kind`:
/// the reply's content as text, no recipient. A body that is not JSON, or
/// has no content, is an agent failure.
pub fn completion_message(outcome: Result<Option<String>, String>, author: AgentId, kind: MessageKind) -> (r: Result<Message, PraxisError>)
    ensures
        match (r, completion_outcome(
            match outcome {
                Ok(Some(c)) => Ok(Some(c@)),
                Ok(None) => Ok(None),
                Err(e) => Err(e@),
            },
            author@,
            kind,
        )) {
            (Ok(m), Ok(v)) => m@ == v,
            (Err(e), Err(f)) => is_agent_failure(e, f),
            _ => false,
        },
{
    match outcome {
        Err(e) => {
            let mut detail = string_of("invalid JSON response: ");
            push_str(&mut detail, e.as_str());
            Err(PraxisError::agent_failure(author.as_str(), detail.as_str()))
        },
        Ok(None) => {
            proof {
                reveal_strlit("response had no choices[0].message.content");
            }
            Err(PraxisError::agent_failure(author.as_str(), "response had no choices[0].message.content"))
        },
        Ok(Some(c)) => Ok(Message::new(author, None, kind, c.as_str())),
    }
}

/// Parses an OpenAI-compatible chat-completions reply body into a message
/// authored by `author` with the given `kind`.
///
/// Fails with an agent failure when the body is not JSON or has no
/// `choices[0].message.content`.
pub fn parse_completion_response(body: &str, author: AgentId, kind: MessageKind) -> (r: Result<Message, PraxisError>)
    ensures
        match (r, completion_outcome(completion_content(body@), author@, kind)) {
            (Ok(m), Ok(v)) => m@ == v,
            (Err(e), Err(f)) => is_agent_failure(e, f),
            _ => false,
        },
{
    let outcome = read_completion_content(body);
    completion_message(outcome, author, kind)
}

/// The reply an HTTP agent gives: the parsed reply re-addressed to the
/// sender of the incoming message, authored by the agent.
pub open spec fn addressed_reply(id: Seq<char>, incoming: MessageView, parsed: MessageView) -> MessageView {
    MessageView { sender: id, recipient: Some(incoming.sender), kind: parsed.kind, text: parsed.text }
}

/// Turns a reply body into the response of agent `id` to `incoming`: the
/// reply kind follows the adversarial contract (a critique for a prompt, a
/// rebuttal for a critique, else the same kind), and the reply is addressed
/// back to the incoming message's sender.
pub fn reply_from_body(id: &AgentId, incoming: &Message, body: &str) -> (r: Result<Message, PraxisError>)
    ensures
        match (r, completion_outcome(completion_content(body@), id@, reply_kind(incoming@.kind))) {
            (Ok(m), Ok(v)) => m@ == addressed_reply(id@, incoming@, v),
            (Err(e), Err(f)) => is_agent_failure(e, f),
            _ => false,
        },
{
    let kind = expected_reply_kind(incoming.kind());
    match parse_completion_response(body, id.clone(), kind) {
        Ok(reply) => Ok(
            Message::new(id.clone(), Some(incoming.sender().clone()), reply.kind(), reply.text()),
        ),
        Err(e) => Err(e),
    }
}

/// Where and as whom an HTTP agent calls: any OpenAI-compatible
/// chat-completions endpoint.
#[derive(Debug)]
pub struct HttpConfig {
    /// The base URL of the API (without `/chat/completions`).
    pub base_url: String,
    /// The model to request, e.g. `deepseek-chat`.
    pub model: String,
    /// The API key.
    pub api_key: String,
}

impl Clone for HttpConfig {
    fn clone(&self) -> (r: Self)
        ensures
            r.base_url@ == self.base_url@,
            r.model@ == self.model@,
            r.api_key@ == self.api_key@,
    {
        HttpConfig {
            base_url: self.base_url.clone(),
            model: self.model.clone(),
            api_key: self.api_key.clone(),
        }
    }
}

/// `s` without its trailing `c`s, as `str::trim_end_matches` gives it.
pub open spec fn trim_end_char(s: Seq<char>, c: char) -> Seq<char>
    decreases s.len(),
{
    if s.len() > 0 && s.last() == c {
        trim_end_char(s.drop_last(), c)
    } else {
        s
    }
}

/// The chat-completions endpoint under a base URL: the base URL without its
/// trailing slashes, then `/chat/completions`.
pub fn chat_completions_url(base_url: &str) -> (r: String)
    ensures
        r@ == trim_end_char(base_url@, '/') + "/chat/completions"@,
{
    let chars = crate::text::chars_of(base_url);
    let mut end = chars.len();
    assert(chars@.take(end as int) =~= chars@);
    while end > 0 && chars[end - 1] == '/'
        invariant
            end <= chars@.len(),
            trim_end_char(chars@, '/') == trim_end_char(chars@.take(end as int), '/'),
        decreases end,
    {
        assert(chars@.take(end as int).drop_last() =~= chars@.take(end - 1));
        end = end - 1;
    }
    assert(trim_end_char(chars@.take(end as int), '/') == chars@.take(end as int));
    let mut r = crate::text::string_from_chars(&chars, 0, end);
    assert(chars@.subrange(0, end as int) =~= chars@.take(end as int));
    push_str(&mut r, "/chat/completions");
    r
}

/// Whether an HTTP status code is worth retrying: 408 (request timeout),
/// 429 (rate limit) and every 5xx.
pub fn should_retry_status(status: u16) -> (r: bool)
    ensures
        r == (status == 408 || status == 429 || (500 <= status <= 599)),
{
    status == 408 || status == 429 || (500 <= status && status <= 599)
}

/// What one attempt of a chat-completions call came to.
pub enum AttemptOutcome {
    /// The server answered with `status`; `body` is the text of its reply.
    Response { status: u16, body: String },
    /// The server answered but its body could not be read.
    BodyUnreadable { detail: String },
    /// The request could not be sent (network error or timeout).
    SendFailed { detail: String },
}

/// What to do after an attempt.
pub enum AttemptStep {
    /// Stop with this result.
    Done(Result<String, PraxisError>),
    /// Sleep the backoff delay and try again; the error is the one to report
    /// if no attempt is left.
    Retry(PraxisError),
}

/// `"HTTP {status}: {body}"`.
pub open spec fn status_detail(status: u16, body: Seq<char>) -> Seq<char> {
    "HTTP "@ + decimal(status as nat) + ": "@ + body
}

/// Decides what follows attempt `attempt` (1-based) of `max_attempts`: a 2xx
/// reply is the result; an unreadable body fails at once; a failed send is
/// retried while attempts are left; any other status is retried only when
/// [`should_retry_status`] allows it and attempts are left.
pub fn attempt_step(label: &str, attempt: u32, max_attempts: u32, outcome: AttemptOutcome) -> (r: AttemptStep)
    ensures
        match outcome {
            AttemptOutcome::Response { status, body } => if 200 <= status <= 299 {
                r matches AttemptStep::Done(Ok(t)) && t@ == body@
            } else if (status == 408 || status == 429 || (500 <= status <= 599)) && attempt
                != max_attempts {
                r matches AttemptStep::Retry(e) && is_agent_failure(e, (label@, status_detail(status, body@)))
            } else {
                r matches AttemptStep::Done(Err(e)) && is_agent_failure(
                    e,
                    (label@, status_detail(status, body@)),
                )
            },
            AttemptOutcome::BodyUnreadable { detail } => r matches AttemptStep::Done(Err(e))
                && is_agent_failure(e, (label@, "HTTP body: "@ + detail@)),
            AttemptOutcome::SendFailed { detail } => if attempt != max_attempts {
                r matches AttemptStep::Retry(e) && is_agent_failure(e, (label@, "HTTP send: "@ + detail@))
            } else {
                r matches AttemptStep::Done(Err(e)) && is_agent_failure(
                    e,
                    (label@, "HTTP send: "@ + detail@),
                )
            },
        },
{
    match outcome {
        AttemptOutcome::Response { status, body } => {
            if 200 <= status && status <= 299 {
                return AttemptStep::Done(Ok(body));
            }
            let mut detail = string_of("HTTP ");
            push_str(&mut detail, decimal_string(status as u64).as_str());
            push_str(&mut detail, ": ");
            push_str(&mut detail, body.as_str());
            let err = PraxisError::agent_failure(label, detail.as_str());
            if !should_retry_status(status) || attempt == max_attempts {
                AttemptStep::Done(Err(err))
            } else {
                AttemptStep::Retry(err)
            }
        },
        AttemptOutcome::BodyUnreadable { detail } => {
            let mut d = string_of("HTTP body: ");
            push_str(&mut d, detail.as_str());
            AttemptStep::Done(Err(PraxisError::agent_failure(label, d.as_str())))
        },
        AttemptOutcome::SendFailed { detail } => {
            let mut d = string_of("HTTP send: ");
            push_str(&mut d, detail.as_str());
            let err = PraxisError::agent_failure(label, d.as_str());
            if attempt == max_attempts {
                AttemptStep::Done(Err(err))
            } else {
                AttemptStep::Retry(err)
            }
        },
    }
}

/// The error reported when the attempts ran out: the last attempt's error,
/// or, when no attempt was made, a failure saying so.
pub fn exhausted(label: &str, last: Option<PraxisError>) -> (r: PraxisError)
    ensures
        match last {
            Some(e) => r == e,
            None => is_agent_failure(r, (label@, "retry loop exited without an error"@)),
        },
{
    match last {
        Some(e) => e,
        None => PraxisError::agent_failure(label, "retry loop exited without an error"),
    }
}

/// The label an HTTP agent's failures carry: `"{id} ({model})"`.
pub fn failure_label(id: &AgentId, config: &HttpConfig) -> (r: String)
    ensures
        r@ == id@ + " ("@ + config.model@ + ")"@,
{
    let mut r = string_of(id.as_str());
    push_str(&mut r, " (");
    push_str(&mut r, config.model.as_str());
    push_str(&mut r, ")");
    r
}

} // verus!
