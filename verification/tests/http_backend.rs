//! The HTTP backend's computing half: prompts, replies, retry decisions.

use proserpina::backend::http::{
    attempt_step, chat_completions_url, exhausted, failure_label, parse_completion_response,
    render_prompt, reply_from_body, should_retry_status, AttemptOutcome, AttemptStep, HttpConfig,
};
use proserpina::{AgentId, Message, MessageKind, Persona};

#[test]
fn render_prompt_emits_system_message_from_persona() {
    let persona = Persona::new("Methodologist")
        .with_framing("Scrutinize the rigor of every claim.")
        .with_focus("proof gaps");
    let incoming = Message::new(AgentId::new("system"), None, MessageKind::Prompt, "Critique this roadmap.");

    let prompt = render_prompt(&persona, &incoming);

    assert_eq!(prompt[0].role, "system");
    assert!(prompt[0].content.contains("Methodologist"));
    assert!(prompt[0].content.contains("Scrutinize the rigor of every claim."));
    assert!(prompt[0].content.contains("proof gaps"));
}

#[test]
fn render_prompt_carries_incoming_message_kind_and_text_as_user_turn() {
    let persona = Persona::new("Red Team");
    let incoming = Message::new(
        AgentId::new("critic-b"),
        Some(AgentId::new("red-team")),
        MessageKind::Critique,
        "Your assumption is unsupported.",
    );

    let prompt = render_prompt(&persona, &incoming);

    let user = &prompt[1];
    assert_eq!(user.role, "user");
    assert!(user.content.contains("Your assumption is unsupported."));
    assert!(user.content.contains("critique"), "kind should be rendered");
    assert!(user.content.contains("critic-b"));
}

#[test]
fn render_prompt_instructs_the_model_to_respond_with_a_message_kind() {
    let persona = Persona::new("Devil's Advocate");
    let prompt_in = Message::new(AgentId::new("system"), None, MessageKind::Prompt, "doc");
    let rendered_for_prompt = render_prompt(&persona, &prompt_in);
    assert!(rendered_for_prompt
        .iter()
        .any(|m| m.content.to_lowercase().contains("respond with kind: critique")));

    let critique_in = Message::new(AgentId::new("c"), None, MessageKind::Critique, "claim");
    let rendered_for_critique = render_prompt(&persona, &critique_in);
    assert!(rendered_for_critique
        .iter()
        .any(|m| m.content.to_lowercase().contains("respond with kind: rebuttal")));
}

#[test]
fn parse_completion_response_extracts_assistant_text_as_message_body() {
    let body = r#"{"choices":[{"message":{"role":"assistant","content":"Section 2 is unsupported."}}]}"#;

    let parsed = parse_completion_response(body, AgentId::new("methodologist"), MessageKind::Critique)
        .expect("well-formed body parses");

    assert_eq!(parsed.sender(), &AgentId::new("methodologist"));
    assert!(matches!(parsed.kind(), MessageKind::Critique));
    assert_eq!(parsed.text(), "Section 2 is unsupported.");
}

#[test]
fn parse_completion_response_errors_on_missing_choices() {
    let body = r#"{"error":"rate limited"}"#;
    let result = parse_completion_response(body, AgentId::new("m"), MessageKind::Critique);
    assert!(result.is_err());
}

#[test]
fn render_prompt_exact_text() {
    let persona = Persona::new("P").with_focus("f");
    let incoming = Message::new(AgentId::new("s"), None, MessageKind::Critique, "t");
    let prompt = render_prompt(&persona, &incoming);
    assert_eq!(prompt[0].content, "You are P, a critic on a peer-review panel. Focus: f.");
    assert_eq!(prompt[1].content, "From s: [critique] t\n\nRespond with kind: rebuttal.");
}

#[test]
fn parse_completion_response_errors_name_the_author() {
    let e = parse_completion_response("{", AgentId::new("m"), MessageKind::Critique).unwrap_err();
    assert!(e.message().contains("invalid JSON response"));
    assert!(e.message().starts_with("agent `m` failed"));
    let e2 = parse_completion_response("{}", AgentId::new("m"), MessageKind::Critique).unwrap_err();
    assert!(e2.message().contains("response had no choices[0].message.content"));
}

#[test]
fn reply_from_body_readdresses_and_sets_the_reply_kind() {
    let incoming = Message::new(AgentId::new("system"), Some(AgentId::new("me")), MessageKind::Prompt, "doc");
    let body = r#"{"choices":[{"message":{"content":"ok"}}]}"#;
    let reply = reply_from_body(&AgentId::new("me"), &incoming, body).unwrap();
    assert_eq!(reply.sender().as_str(), "me");
    assert_eq!(reply.recipient(), Some(&AgentId::new("system")));
    assert_eq!(reply.kind(), MessageKind::Critique);
    assert_eq!(reply.text(), "ok");
}

#[test]
fn should_retry_returns_true_for_transient_statuses() {
    assert!(should_retry_status(429));
    assert!(should_retry_status(408));
    assert!(should_retry_status(500));
    assert!(should_retry_status(502));
    assert!(should_retry_status(503));
    assert!(should_retry_status(504));
}

#[test]
fn should_retry_returns_false_for_non_transient_statuses() {
    assert!(!should_retry_status(200));
    assert!(!should_retry_status(400));
    assert!(!should_retry_status(401));
    assert!(!should_retry_status(403));
    assert!(!should_retry_status(404));
    assert!(!should_retry_status(422));
}

#[test]
fn attempt_steps_follow_the_policy() {
    let ok = attempt_step("l", 1, 3, AttemptOutcome::Response { status: 200, body: "b".to_owned() });
    assert!(matches!(ok, AttemptStep::Done(Ok(ref b)) if b == "b"));
    let retry = attempt_step("l", 1, 3, AttemptOutcome::Response { status: 503, body: "x".to_owned() });
    match retry {
        AttemptStep::Retry(e) => assert_eq!(e.message(), "agent `l` failed: HTTP 503: x"),
        _ => panic!("503 with attempts left is retried"),
    }
    let last = attempt_step("l", 3, 3, AttemptOutcome::Response { status: 503, body: "x".to_owned() });
    assert!(matches!(last, AttemptStep::Done(Err(_))));
    let fatal = attempt_step("l", 1, 3, AttemptOutcome::Response { status: 401, body: "no".to_owned() });
    assert!(matches!(fatal, AttemptStep::Done(Err(_))));
    let net = attempt_step("l", 1, 2, AttemptOutcome::SendFailed { detail: "dns".to_owned() });
    assert!(matches!(net, AttemptStep::Retry(_)));
    let body = attempt_step("l", 1, 2, AttemptOutcome::BodyUnreadable { detail: "cut".to_owned() });
    assert!(matches!(body, AttemptStep::Done(Err(_))));
    assert_eq!(exhausted("l", None).message(), "agent `l` failed: retry loop exited without an error");
}

#[test]
fn endpoint_and_label() {
    assert_eq!(chat_completions_url("https://a.b/v1//"), "https://a.b/v1/chat/completions");
    let cfg = HttpConfig { base_url: "u".to_owned(), model: "m".to_owned(), api_key: "k".to_owned() };
    assert_eq!(failure_label(&AgentId::new("Devil's Advocate"), &cfg), "Devil's Advocate (m)");
}
