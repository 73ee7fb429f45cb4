//! Agent readiness: capabilities, the dry-run plan, exit codes and error
//! kinds.

use proserpina::agent_info::{Capabilities, Plan};
use proserpina::backend::http::HttpConfig;
use proserpina::{AgentId, Persona, PraxisError};

#[test]
fn capabilities_reports_version_subcommands_formats_and_topologies() {
    let caps = Capabilities::static_info();
    assert!(!caps.version.is_empty(), "version should be set");
    assert!(caps.subcommands.contains(&"critique".to_owned()));
    assert!(caps.subcommands.contains(&"capabilities".to_owned()));
    assert!(caps.output_formats.contains(&"markdown".to_owned()));
    assert!(caps.output_formats.contains(&"json".to_owned()));
    assert!(caps.topologies.contains(&"parallel".to_owned()));
    assert!(caps.topologies.contains(&"rounds".to_owned()));
}

fn cfg(tag: &str) -> HttpConfig {
    HttpConfig {
        base_url: format!("https://{tag}.invalid/v1"),
        model: format!("{tag}-model"),
        api_key: format!("key-{tag}"),
    }
}

#[test]
fn plan_reports_roster_seed_and_call_counts_without_network() {
    let personas = Persona::default_panel();
    let configs = vec![cfg("deepseek"), cfg("openai")];
    let plan = Plan::for_parallel(&personas, &configs, 42);

    assert_eq!(plan.seed, 42);
    assert_eq!(plan.topology, "parallel");
    assert_eq!(plan.roster.len(), personas.len());
    for slot in &plan.roster {
        assert!(!slot.persona.is_empty());
        assert!(!slot.provider.is_empty());
        assert!(!slot.model.is_empty());
    }
    assert_eq!(plan.n_critic_calls, personas.len());
    assert_eq!(plan.n_summarizer_calls, 1);
    assert_eq!(plan.estimated_total_calls, personas.len() + 1);
}

#[test]
fn plan_for_parallel_is_deterministic_given_seed() {
    let personas = Persona::default_panel();
    let configs = vec![cfg("a"), cfg("b"), cfg("c")];
    let p1 = Plan::for_parallel(&personas, &configs, 7);
    let p2 = Plan::for_parallel(&personas, &configs, 7);
    let models1: Vec<_> = p1.roster.iter().map(|s| s.model.clone()).collect();
    let models2: Vec<_> = p2.roster.iter().map(|s| s.model.clone()).collect();
    assert_eq!(models1, models2, "same seed -> same plan");
}

#[test]
fn exit_code_maps_each_variant_to_a_distinct_value() {
    assert_eq!(PraxisError::no_authed_providers(vec![]).exit_code(), 10);
    assert_eq!(PraxisError::agent_failure("x", "y").exit_code(), 11);
    assert_eq!(PraxisError::summary_failed("x").exit_code(), 12);
    assert_eq!(PraxisError::missing_agent(AgentId::new("g")).exit_code(), 15);
}

#[test]
fn error_kind_is_a_stable_machine_string() {
    assert_eq!(PraxisError::no_authed_providers(vec![]).error_kind(), "no_authed_providers");
    assert_eq!(PraxisError::agent_failure("x", "y").error_kind(), "agent_failure");
    assert_eq!(PraxisError::summary_failed("x").error_kind(), "summary_failed");
}

#[test]
fn plan_labels_registry_models_with_their_provider() {
    let personas = Persona::archetypes();
    let configs = vec![HttpConfig {
        base_url: "https://api.deepseek.com/v1".to_owned(),
        model: "deepseek-chat".to_owned(),
        api_key: "k".to_owned(),
    }];
    let plan = Plan::for_parallel(&personas, &configs, 3);
    assert_eq!(plan.roster.len(), 5);
    for slot in &plan.roster {
        assert_eq!(slot.provider, "deepseek");
    }
    let custom = Plan::for_parallel(&personas, &[cfg("x")], 3);
    assert!(custom.roster.iter().all(|s| s.provider == "custom"));
    let empty = Plan::for_parallel(&personas, &[], 3);
    assert!(empty.roster.is_empty());
    assert_eq!(empty.estimated_total_calls, 1);
}

#[test]
fn capabilities_mark_authed_models_and_report_custom_ones() {
    let authed = vec![
        HttpConfig { base_url: "u".to_owned(), model: "deepseek-chat".to_owned(), api_key: "k".to_owned() },
        HttpConfig { base_url: "v".to_owned(), model: "llama3".to_owned(), api_key: "k".to_owned() },
    ];
    let caps = Capabilities::with_current_auth(&authed, None);
    assert_eq!(caps.providers.len(), 7);
    assert!(caps.providers[0].authed);
    assert!(caps.providers[1..6].iter().all(|p| !p.authed));
    assert_eq!(caps.providers[6].name, "custom");
    assert_eq!(caps.providers[6].model, "llama3");
    assert_eq!(caps.exit_codes.get(&15).map(|s| s.as_str()), Some("missing agent"));
}

#[test]
fn error_messages_name_their_subjects() {
    let e = PraxisError::no_authed_providers(vec!["deepseek".to_owned(), "openai".to_owned()]);
    assert_eq!(e.message(), "no API keys found for any provider (tried: deepseek, openai)");
    let m = PraxisError::missing_agent(AgentId::new("ghost"));
    assert_eq!(m.message(), "no agent registered for id `ghost`");
    assert_eq!(m.error_kind(), "missing_agent");
}
