//! Rich findings and the summarizer's prompt and parser.

use proserpina::summary::{findings_from_body, parse_findings, render_summary_prompt};
use proserpina::{AgentId, Finding, Message, MessageKind, Severity, Subject, Transcript};

#[test]
fn finding_carries_the_full_rich_field_set() {
    let f = Finding::new(Severity::Blocker, "Section 2 is unsupported")
        .with_category("methodology")
        .with_location("§2")
        .with_quote("We will prove P=NP.")
        .with_suggested_change("Add a proof sketch or weaken the claim.")
        .with_supporting_critics(vec![AgentId::new("methodologist"), AgentId::new("red-team")]);

    assert_eq!(f.severity(), &Severity::Blocker);
    assert_eq!(f.summary(), "Section 2 is unsupported");
    assert_eq!(f.category.as_deref(), Some("methodology"));
    assert_eq!(f.location.as_deref(), Some("§2"));
    assert_eq!(f.quote.as_deref(), Some("We will prove P=NP."));
    assert_eq!(f.suggested_change.as_deref(), Some("Add a proof sketch or weaken the claim."));
    assert_eq!(f.supporting_critics(), &[AgentId::new("methodologist"), AgentId::new("red-team")]);
}

#[test]
fn finding_minimal_has_no_optional_fields() {
    let f = Finding::new(Severity::Minor, "typo in intro");
    assert_eq!(f.severity(), &Severity::Minor);
    assert_eq!(f.summary(), "typo in intro");
    assert!(f.category.is_none());
    assert!(f.location.is_none());
    assert!(f.quote.is_none());
    assert!(f.suggested_change.is_none());
    assert!(f.supporting_critics().is_empty());
}

#[test]
fn finding_builder_is_chainable_and_must_use() {
    let f = Finding::new(Severity::Info, "note").with_category("style").with_location("line 3");
    assert_eq!(f.category.as_deref(), Some("style"));
    assert_eq!(f.location.as_deref(), Some("line 3"));
}

#[test]
fn parse_findings_extracts_a_single_well_formed_block() {
    let body = "Some preamble from the model.\n\n```praxis-finding\nseverity: blocker\ncategory: methodology\nsummary: Section 2 is unsupported.\nlocation: §2\nquote: We will prove P=NP.\nsuggested_change: Add a proof sketch.\nsupporting_critics: methodologist, red-team\n```\n\nSome trailing prose.";

    let findings = parse_findings(body);
    assert_eq!(findings.len(), 1);
    let f = &findings[0];
    assert_eq!(f.severity(), &Severity::Blocker);
    assert_eq!(f.summary(), "Section 2 is unsupported.");
    assert_eq!(f.category.as_deref(), Some("methodology"));
    assert_eq!(f.location.as_deref(), Some("§2"));
    assert_eq!(f.quote.as_deref(), Some("We will prove P=NP."));
    assert_eq!(f.suggested_change.as_deref(), Some("Add a proof sketch."));
    assert_eq!(f.supporting_critics(), &[AgentId::new("methodologist"), AgentId::new("red-team")]);
}

#[test]
fn parse_findings_extracts_multiple_blocks() {
    let body = "```praxis-finding\nseverity: major\nsummary: First issue.\n```\n\nbetween\n\n```praxis-finding\nseverity: minor\nsummary: Second issue.\n```";
    let findings = parse_findings(body);
    assert_eq!(findings.len(), 2);
    assert_eq!(findings[0].summary(), "First issue.");
    assert_eq!(findings[0].severity(), &Severity::Major);
    assert_eq!(findings[1].summary(), "Second issue.");
    assert_eq!(findings[1].severity(), &Severity::Minor);
}

#[test]
fn parse_findings_treats_unknown_severity_as_major() {
    let body = "```praxis-finding\nseverity: critical-ish\nsummary: X.\n```";
    let findings = parse_findings(body);
    assert_eq!(findings.len(), 1);
    assert_eq!(findings[0].severity(), &Severity::Major);
}

#[test]
fn parse_findings_accepts_optional_fields_as_none() {
    let body = "```praxis-finding\nseverity: info\nsummary: Just a note.\n```";
    let findings = parse_findings(body);
    assert_eq!(findings.len(), 1);
    let f = &findings[0];
    assert!(f.category.is_none());
    assert!(f.location.is_none());
    assert!(f.quote.is_none());
    assert!(f.suggested_change.is_none());
    assert!(f.supporting_critics().is_empty());
}

#[test]
fn parse_findings_returns_empty_when_no_blocks_present() {
    let body = "The model rambled but emitted no structured blocks.";
    assert!(parse_findings(body).is_empty());
}

#[test]
fn parse_findings_supporting_critics_handles_single_name() {
    let body = "```praxis-finding\nseverity: major\nsummary: X.\nsupporting_critics: lone-critic\n```";
    let findings = parse_findings(body);
    assert_eq!(findings[0].supporting_critics(), &[AgentId::new("lone-critic")]);
}

#[test]
fn render_summary_prompt_includes_subject_and_transcript_turns() {
    let subject = Subject::from_markdown("# Plan\n\nDo the thing.", "plan.md");
    let mut transcript = Transcript::new();
    transcript.push(Message::new(AgentId::new("critic-a"), None, MessageKind::Critique, "The plan is vague."));
    transcript.push(Message::new(AgentId::new("critic-b"), None, MessageKind::Critique, "No timeline."));

    let prompt = render_summary_prompt(&subject, &transcript);

    assert_eq!(prompt[0].role, "system");
    assert!(prompt[0].content.contains("praxis-finding"));

    assert_eq!(prompt[1].role, "user");
    assert!(prompt[1].content.contains("Do the thing."));
    assert!(prompt[1].content.contains("The plan is vague."));
    assert!(prompt[1].content.contains("No timeline."));
    assert!(prompt[1].content.contains("critic-a"));
    assert!(prompt[1].content.contains("critic-b"));
}

#[test]
fn parse_findings_skips_blocks_without_summary_and_unterminated_blocks() {
    let body = "```praxis-finding\nseverity: major\n```\n```praxis-finding\nsummary: kept\n```\n```praxis-finding\nsummary: lost";
    let findings = parse_findings(body);
    assert_eq!(findings.len(), 1);
    assert_eq!(findings[0].summary(), "kept");
    assert_eq!(findings[0].severity(), &Severity::Major);
}

#[test]
fn parse_findings_reads_case_insensitive_severity_and_last_key_wins() {
    let body = "```praxis-finding trailing tokens\r\nseverity: BLOCKER\r\nsummary: first\r\nsummary:  second  \r\nnot a field\r\nsupporting_critics: a, , b ,\r\n```";
    let findings = parse_findings(body);
    assert_eq!(findings.len(), 1);
    assert_eq!(findings[0].severity(), &Severity::Blocker);
    assert_eq!(findings[0].summary(), "second");
    assert_eq!(findings[0].supporting_critics(), &[AgentId::new("a"), AgentId::new("b")]);
}

#[test]
fn summary_reply_bodies_become_findings_or_errors() {
    let ok = r#"{"choices":[{"message":{"content":"```praxis-finding\nsummary: S\n```"}}]}"#;
    let fs = findings_from_body(ok).expect("content present");
    assert_eq!(fs.len(), 1);
    assert_eq!(fs[0].summary(), "S");
    let e = findings_from_body("not json").unwrap_err();
    assert_eq!(e.error_kind(), "summary_failed");
    assert!(e.message().contains("invalid JSON"));
    let e2 = findings_from_body(r#"{"choices":[]}"#).unwrap_err();
    assert!(e2.message().contains("no choices[0].message.content"));
}
