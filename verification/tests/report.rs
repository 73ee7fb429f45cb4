//! The report synthesizer and its markdown rendering.

use proserpina::{
    AgentId, EchoAgent, Finding, InteractionGraph, Message, MessageKind, Persona, Report, Runner,
    Severity, Subject, Topology, Transcript,
};

fn finding_by(author: &str, severity: Severity, summary: &str) -> Finding {
    Finding::new(severity, summary).with_supporting_critics(vec![AgentId::new(author)])
}

#[test]
fn severity_is_exhaustive_with_four_levels() {
    let levels = [Severity::Info, Severity::Minor, Severity::Major, Severity::Blocker];
    assert_eq!(levels.len(), 4);
    assert!(Severity::Blocker > Severity::Major);
    assert!(Severity::Major > Severity::Minor);
    assert!(Severity::Minor > Severity::Info);
}

#[test]
fn report_synthesizes_one_finding_per_critique() {
    let graph = InteractionGraph::from(Topology::parallel(vec![
        AgentId::new("critic-a"),
        AgentId::new("critic-b"),
    ]));
    let mut runner = Runner::new(graph)
        .with_agent(EchoAgent::new(AgentId::new("critic-a"), Persona::new("Critic A")))
        .with_agent(EchoAgent::new(AgentId::new("critic-b"), Persona::new("Critic B")));

    let transcript = runner
        .execute(&Subject::from_markdown("# Plan\n\nDo the thing.", "plan.md"))
        .expect("echo run never fails");
    let report = Report::from_transcript(&transcript);

    assert_eq!(report.findings().len(), 2);

    let authors: Vec<&str> = report
        .findings()
        .iter()
        .map(|f| f.author().expect("one author per finding").as_str())
        .collect();
    assert_eq!(authors, vec!["critic-a", "critic-b"]);

    for finding in report.findings() {
        assert_eq!(finding.summary(), "# Plan\n\nDo the thing.");
        assert_eq!(finding.severity(), &Severity::Major);
    }
}

#[test]
fn report_from_manual_transcript_skips_non_critiques() {
    let mut transcript = Transcript::new();
    transcript.push(Message::new(
        AgentId::new("system"),
        None,
        MessageKind::Prompt,
        "prompt that must not become a finding",
    ));
    transcript.push(Message::new(
        AgentId::new("critic-a"),
        None,
        MessageKind::Critique,
        "a real finding",
    ));
    transcript.push(Message::new(
        AgentId::new("critic-b"),
        None,
        MessageKind::Question,
        "a question, not a finding",
    ));

    let report = Report::from_transcript(&transcript);

    assert_eq!(report.findings().len(), 1);
    assert_eq!(report.findings()[0].author().expect("authored").as_str(), "critic-a");
    assert_eq!(report.findings()[0].summary(), "a real finding");
}

#[test]
fn report_renders_to_markdown_with_title_and_per_finding_blocks() {
    let mut report = Report::new();
    report.push_finding(finding_by("critic-a", Severity::Blocker, "Assumptions unsupported."));
    report.push_finding(finding_by("critic-b", Severity::Info, "Worth a footnote."));

    let md = report.to_markdown();

    assert!(md.starts_with("# Critique Report"));
    assert!(md.contains("1. [blocker] Assumptions unsupported."));
    assert!(md.contains("2. [info] Worth a footnote."));
    assert!(md.contains("critic-a"));
    assert!(md.contains("critic-b"));
}

#[test]
fn empty_report_renders_no_findings_message() {
    let report = Report::new();
    let md = report.to_markdown();
    assert!(md.contains("# Critique Report"));
    assert!(md.contains("No findings."));
}

#[test]
fn markdown_sorts_by_severity_keeping_ties_in_order() {
    let mut report = Report::new();
    report.push_finding(Finding::new(Severity::Minor, "m1"));
    report.push_finding(Finding::new(Severity::Blocker, "b1"));
    report.push_finding(Finding::new(Severity::Minor, "m2"));
    report.push_finding(Finding::new(Severity::Info, "i1"));
    report.push_finding(Finding::new(Severity::Blocker, "b2"));
    let md = report.to_markdown_with_source(Some("doc.md"));
    let expected = "# Critique Report\n\n**Subject:** `doc.md`\n\n**Findings:** 5 (2 blocker, 0 major, 2 minor, 1 info)\n\n\
## 1. [blocker] b1\n\n\n## 2. [blocker] b2\n\n\n## 3. [minor] m1\n\n\n## 4. [minor] m2\n\n\n## 5. [info] i1\n\n\n";
    assert_eq!(md, expected);
}

#[test]
fn markdown_lists_every_field_and_the_critics() {
    let mut report = Report::new();
    report.push_finding(
        Finding::new(Severity::Major, "S")
            .with_category("c")
            .with_location("l")
            .with_quote("q")
            .with_suggested_change("s")
            .with_supporting_critics(vec![AgentId::new("x"), AgentId::new("y")]),
    );
    let md = report.to_markdown();
    assert_eq!(
        md,
        "# Critique Report\n\n**Findings:** 1 (0 blocker, 1 major, 0 minor, 0 info)\n\n## 1. [major] S\n\n\
- **Category:** c\n- **Location:** l\n- **Quote:** > q\n- **Suggested change:** s\n- **Raised by:** x, y\n\n"
    );
}

#[test]
fn severity_labels_and_ranks() {
    assert_eq!(Severity::Info.label(), "info");
    assert_eq!(Severity::Blocker.label(), "blocker");
    assert!(Severity::Minor.rank() < Severity::Major.rank());
    assert_eq!(Report::default().findings().len(), 0);
}
