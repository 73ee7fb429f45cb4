//! The critique entry points.

use proserpina::cli::critique::{configs_to_try, critique_markdown, identify_provider, parse_excludes};
use proserpina::cli::run_critique_echo;
use proserpina::backend::http::HttpConfig;
use proserpina::{Finding, Report, Severity};

#[test]
fn run_critique_produces_a_markdown_report() {
    let input = "# Roadmap\n\nWe will ship the thing.";
    let markdown = run_critique_echo(input, "roadmap.md").expect("echo-backed critique never fails");

    assert!(markdown.starts_with("# Critique Report"));
    assert!(!markdown.contains("No findings."));
}

#[test]
fn run_critique_marks_the_source_in_the_report() {
    let markdown = run_critique_echo("some text", "plan.md").expect("echo-backed critique never fails");
    assert!(markdown.contains("plan.md"));
}

#[test]
fn run_critique_works_with_anonymous_subject() {
    let markdown = run_critique_echo("anonymous doc", "").expect("echo-backed critique never fails");
    assert!(markdown.starts_with("# Critique Report"));
}

#[test]
fn run_critique_echo_exact_report() {
    let md = run_critique_echo("doc", "d.md").unwrap();
    assert_eq!(
        md,
        "# Critique Report\n\n**Subject:** `d.md`\n\n**Findings:** 1 (0 blocker, 1 major, 0 minor, 0 info)\n\n## 1. [major] doc\n\n- **Raised by:** Devil's Advocate\n\n"
    );
}

fn cfg(model: &str) -> HttpConfig {
    HttpConfig { base_url: format!("https://{model}.invalid"), model: model.to_owned(), api_key: "k".to_owned() }
}

#[test]
fn fallback_configs_put_the_primary_first_and_skip_its_model() {
    let configs = vec![cfg("a"), cfg("b"), cfg("a"), cfg("c")];
    let order: Vec<String> = configs_to_try(&cfg("a"), &configs).into_iter().map(|c| c.model).collect();
    assert_eq!(order, vec!["a", "b", "c"]);
}

#[test]
fn critique_markdown_records_seed_and_skips() {
    let mut r = Report::new();
    r.push_finding(Finding::new(Severity::Minor, "x"));
    let md = critique_markdown(&r, None, 7, &vec!["A".to_owned(), "B".to_owned()]);
    assert!(md.ends_with("\n_Reproducibility: seed `7`_\n\n_Skipped critics (provider failures): A, B_\n"));
    let md2 = critique_markdown(&r, None, 7, &vec![]);
    assert!(md2.ends_with("seed `7`_\n"));
}

#[test]
fn excludes_and_provider_names() {
    assert_eq!(parse_excludes(" qwen3.7-max, ,mercury-2 "), vec!["qwen3.7-max", "mercury-2"]);
    assert!(parse_excludes("").is_empty());
    assert_eq!(identify_provider(&cfg("deepseek-chat")), "deepseek");
    assert_eq!(identify_provider(&cfg("nope")), "custom");
}

/// A backend whose configs of model `down` fail; the others answer with a
/// critique of the prompt's text. It records the requests.
struct ScriptedBackend {
    asked: Vec<(String, String, String)>,
}

impl proserpina::cli::critique::CriticBackend for ScriptedBackend {
    fn respond(
        &mut self,
        id: &proserpina::AgentId,
        _persona: &proserpina::Persona,
        config: &HttpConfig,
        prompt: &proserpina::Message,
    ) -> Result<proserpina::Message, proserpina::PraxisError> {
        self.asked.push((id.as_str().to_owned(), config.model.clone(), prompt.text().to_owned()));
        if config.model == "down" {
            Err(proserpina::PraxisError::agent_failure(id.as_str(), "down"))
        } else {
            Ok(proserpina::Message::new(
                id.clone(),
                prompt.sender().clone().into(),
                proserpina::MessageKind::Critique,
                prompt.text(),
            ))
        }
    }

    fn progress(&mut self, _line: &str) {}
}

#[test]
fn run_critics_falls_back_to_the_next_model_and_asks_the_subject() {
    let mut backend = ScriptedBackend { asked: Vec::new() };
    let subject = proserpina::Subject::from_markdown("the claim", "c.md");
    let personas = vec![proserpina::Persona::new("Skeptic")];
    let configs = vec![cfg("down"), cfg("up")];
    let run = proserpina::cli::critique::run_critics(&mut backend, &subject, &personas, &configs, 7, true)
        .expect("one model answers");
    assert_eq!(run.transcript.len(), 1);
    assert!(run.skipped.is_empty());
    assert_eq!(run.transcript.messages()[0].text(), "the claim");
    assert!(backend.asked.iter().all(|(id, _, text)| id == "Skeptic" && text == "the claim"));
    assert_eq!(backend.asked.last().map(|a| a.1.as_str()), Some("up"));
}

#[test]
fn run_critics_fails_when_every_provider_fails() {
    let mut backend = ScriptedBackend { asked: Vec::new() };
    let subject = proserpina::Subject::from_markdown("x", "x.md");
    let personas = vec![proserpina::Persona::new("A"), proserpina::Persona::new("B")];
    let configs = vec![cfg("down")];
    let r = proserpina::cli::critique::run_critics(&mut backend, &subject, &personas, &configs, 1, true);
    assert!(matches!(r, Err(proserpina::PraxisError::AgentFailure { .. })));
    assert_eq!(backend.asked.len(), 2);
}

#[test]
fn recorded_backend_passes_each_request_on() {
    let mut backend = proserpina::cli::critique::Recorded::new(ScriptedBackend { asked: Vec::new() });
    let subject = proserpina::Subject::from_markdown("claim", "c.md");
    let personas = vec![proserpina::Persona::new("A"), proserpina::Persona::new("B")];
    let configs = vec![cfg("down"), cfg("up")];
    let run = proserpina::cli::critique::run_critics(&mut backend, &subject, &personas, &configs, 3, true)
        .expect("the up model answers");
    assert_eq!(run.transcript.len(), 2);
    let asked = &backend.inner.asked;
    assert!(asked.len() >= 2 && asked.len() <= 4);
    assert_eq!(asked.iter().filter(|a| a.1 == "up").count(), 2);
}
