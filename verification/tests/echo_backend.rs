//! The deterministic echo backend.

use proserpina::{Agent, AgentId, EchoAgent, Message, MessageKind, Persona};

#[test]
fn echo_agent_exposes_its_id_and_persona() {
    let id = AgentId::new("methodologist");
    let persona = Persona::new("Methodologist").with_focus("rigor of proofs");
    let agent = EchoAgent::new(id, persona);

    assert_eq!(agent.id().as_str(), "methodologist");
    assert_eq!(agent.persona().name(), "Methodologist");
    assert_eq!(agent.persona().focus(), Some("rigor of proofs"));
}

#[test]
fn echo_agent_is_deterministic() {
    let mut agent = EchoAgent::new(AgentId::new("critic-a"), Persona::new("Critic A"));
    let incoming = Message::new(
        AgentId::new("system"),
        None,
        MessageKind::Question,
        "Is the proof sound?",
    );

    let first = agent.respond(&incoming).expect("echo never fails");
    let second = agent.respond(&incoming).expect("echo never fails");

    assert_eq!(first, second);
}

#[test]
fn echo_agent_replies_to_sender_even_for_broadcasts() {
    let mut agent = EchoAgent::new(AgentId::new("critic-b"), Persona::new("Critic B"));
    let broadcast = Message::new(
        AgentId::new("moderator"),
        None,
        MessageKind::Critique,
        "Open the floor.",
    );

    let reply = agent.respond(&broadcast).expect("echo never fails");

    assert_eq!(reply.sender(), &AgentId::new("critic-b"));
    assert_eq!(reply.recipient(), Some(&AgentId::new("moderator")));
}

#[test]
fn echo_agent_critiques_a_prompt_and_rebuts_a_critique() {
    let mut agent = EchoAgent::new(AgentId::new("critic-a"), Persona::new("Critic A"));
    let prompt = Message::new(AgentId::new("system"), Some(AgentId::new("critic-a")), MessageKind::Prompt, "doc");
    let critique = Message::new(AgentId::new("critic-b"), Some(AgentId::new("system")), MessageKind::Critique, "weak");
    let verdict = Message::new(AgentId::new("judge"), None, MessageKind::Verdict, "done");

    let r1 = agent.respond(&prompt).unwrap();
    assert_eq!(r1.kind(), MessageKind::Critique);
    assert_eq!(r1.recipient(), Some(&AgentId::new("system")));
    assert_eq!(r1.text(), "doc");
    let r2 = agent.respond(&critique).unwrap();
    assert_eq!(r2.kind(), MessageKind::Rebuttal);
    assert_eq!(r2.recipient(), Some(&AgentId::new("critic-b")));
    assert_eq!(agent.respond(&verdict).unwrap().kind(), MessageKind::Verdict);
}

#[test]
fn echo_agent_reply_matches_respond() {
    let mut agent = EchoAgent::new(AgentId::new("x"), Persona::new("X"));
    let m = Message::new(AgentId::new("y"), None, MessageKind::Question, "why?");
    let direct = agent.reply(&m);
    assert_eq!(agent.respond(&m).unwrap(), direct);
}

#[test]
fn echo_agent_mirrors_incoming_message() {
    let mut agent = EchoAgent::new(AgentId::new("critic-a"), Persona::new("Critic A"));
    let incoming = Message::new(
        AgentId::new("system"),
        Some(AgentId::new("critic-a")),
        MessageKind::Critique,
        "Critique the roadmap.",
    );

    let reply = agent.respond(&incoming).expect("echo never fails");

    // Authored by the agent itself.
    assert_eq!(reply.sender(), &AgentId::new("critic-a"));
    // Addressed back to whoever sent the incoming message.
    assert_eq!(reply.recipient(), Some(&AgentId::new("system")));
    // A critique is answered with a rebuttal; the text is mirrored unchanged.
    assert!(matches!(reply.kind(), MessageKind::Rebuttal));
    assert_eq!(reply.text(), "Critique the roadmap.");
}
