//! The provider registry and the seeded roster.

use proserpina::backend::http::HttpConfig;
use proserpina::backend::roster::{assign_roster, random_roster, roster_from_configs, seeded_roster, Provider};
use proserpina::Persona;
use rand::rngs::StdRng;
use rand::SeedableRng;

#[test]
fn provider_exposes_its_fields() {
    let p = Provider::new("deepseek")
        .with_base_url("https://api.deepseek.com/v1")
        .with_model("deepseek-chat")
        .with_key_env_var("DEEPSEEK_API_KEY");
    assert_eq!(p.name(), "deepseek");
    assert_eq!(p.base_url(), "https://api.deepseek.com/v1");
    assert_eq!(p.model(), "deepseek-chat");
    assert_eq!(p.key_env_var(), "DEEPSEEK_API_KEY");
}

#[test]
fn registry_contains_the_known_frontier_providers() {
    let registry = Provider::registry();
    let names: Vec<&str> = registry.iter().map(|p| p.name()).collect();
    for expected in ["deepseek", "openai", "moonshot", "alibaba", "zai", "google"] {
        assert!(names.contains(&expected), "registry should include {expected}, got {names:?}");
    }
}

#[test]
fn registry_entries_are_fully_populated() {
    for p in Provider::registry() {
        assert!(!p.base_url().is_empty(), "{} has empty base_url", p.name());
        assert!(!p.model().is_empty(), "{} has empty model", p.name());
        assert!(!p.key_env_var().is_empty(), "{} has empty key_env_var", p.name());
    }
}

fn cfg(tag: &str) -> HttpConfig {
    HttpConfig {
        base_url: format!("https://{tag}.invalid/v1"),
        model: format!("{tag}-model"),
        api_key: format!("key-{tag}"),
    }
}

fn personas(n: usize) -> Vec<Persona> {
    (0..n).map(|i| Persona::new(&format!("critic-{i}"))).collect()
}

#[test]
fn random_roster_is_deterministic_given_a_seed() {
    let configs = vec![cfg("a"), cfg("b"), cfg("c")];
    let ps = personas(4);

    let r1 = random_roster(&ps, &configs, &mut StdRng::seed_from_u64(42));
    let r2 = random_roster(&ps, &configs, &mut StdRng::seed_from_u64(42));
    assert_eq!(r1.len(), r2.len());
    for (a, b) in r1.iter().zip(r2.iter()) {
        assert_eq!(a.1.model, b.1.model, "same seed -> same model assignment");
    }
}

#[test]
fn random_roster_different_seeds_usually_differ() {
    let configs = vec![cfg("a"), cfg("b"), cfg("c"), cfg("d")];
    let ps = personas(6);

    let r1: Vec<String> = random_roster(&ps, &configs, &mut StdRng::seed_from_u64(1))
        .iter()
        .map(|(_, c)| c.model.clone())
        .collect();
    let r2: Vec<String> = random_roster(&ps, &configs, &mut StdRng::seed_from_u64(2))
        .iter()
        .map(|(_, c)| c.model.clone())
        .collect();
    assert_ne!(r1, r2, "different seeds should yield different assignments");
}

#[test]
fn random_roster_assigns_only_from_the_provided_configs() {
    let configs = vec![cfg("a"), cfg("b")];
    let allowed: Vec<String> = configs.iter().map(|c| c.model.clone()).collect();
    let roster = random_roster(&personas(5), &configs, &mut StdRng::seed_from_u64(7));

    for (_, c) in &roster {
        assert!(allowed.contains(&c.model), "roster assigned a model not in the input set: {}", c.model);
    }
}

#[test]
fn random_roster_preserves_persona_count_and_order() {
    let configs = vec![cfg("a"), cfg("b")];
    let ps = personas(3);
    let roster = random_roster(&ps, &configs, &mut StdRng::seed_from_u64(99));

    assert_eq!(roster.len(), 3);
    let names: Vec<&str> = roster.iter().map(|(p, _)| p.name()).collect();
    assert_eq!(names, vec!["critic-0", "critic-1", "critic-2"]);
}

#[test]
fn random_roster_with_no_configs_produces_empty_roster() {
    let roster = random_roster(&personas(3), &[], &mut StdRng::seed_from_u64(0));
    assert!(roster.is_empty(), "no authed configs -> no agents");
}

#[test]
fn random_roster_with_no_personas_produces_empty_roster() {
    let roster = random_roster(&[], &[cfg("a")], &mut StdRng::seed_from_u64(0));
    assert!(roster.is_empty());
}

#[test]
fn assign_roster_pairs_each_persona_with_its_pick() {
    let configs = vec![cfg("a"), cfg("b")];
    let roster = assign_roster(&personas(3), &configs, &[1, 0, 1]);
    let models: Vec<&str> = roster.iter().map(|(_, c)| c.model.as_str()).collect();
    assert_eq!(models, vec!["b-model", "a-model", "b-model"]);
}

#[test]
fn roster_from_configs_names_the_tried_providers_when_none_is_authed() {
    let providers = vec![Provider::new("a"), Provider::new("b")];
    let err = roster_from_configs(&personas(2), &providers, &[], 1).unwrap_err();
    assert_eq!(err.message(), "no API keys found for any provider (tried: a, b)");
    let roster = roster_from_configs(&personas(4), &providers, &[cfg("only")], 42).unwrap();
    assert_eq!(roster.len(), 4);
    assert!(roster.iter().all(|(_, c)| c.model == "only-model"));
}

#[test]
fn config_with_key_builds_a_config_only_when_keyed() {
    let p = Provider::new("t").with_base_url("https://example.invalid/v1").with_model("test-model");
    assert!(p.config_with_key(None).is_none());
    let c = p.config_with_key(Some("sk-test-value".to_owned())).unwrap();
    assert_eq!(c.base_url, "https://example.invalid/v1");
    assert_eq!(c.model, "test-model");
    assert_eq!(c.api_key, "sk-test-value");
}

#[test]
fn seeded_roster_is_the_roster_a_seeded_generator_draws() {
    let ps = personas(6);
    let configs = vec![cfg("a"), cfg("b"), cfg("c")];
    for seed in [0u64, 1, 42, 9001] {
        let seeded: Vec<String> = seeded_roster(&ps, &configs, seed).into_iter().map(|(_, c)| c.model).collect();
        let drawn: Vec<String> = random_roster(&ps, &configs, &mut StdRng::seed_from_u64(seed))
            .into_iter()
            .map(|(_, c)| c.model)
            .collect();
        assert_eq!(seeded, drawn);
    }
}

#[test]
fn dry_run_plan_shows_the_seeded_roster() {
    let ps = personas(4);
    let configs = vec![cfg("a"), cfg("b")];
    let plan = proserpina::agent_info::Plan::for_parallel(&ps, &configs, 17);
    let models: Vec<String> = plan.roster.iter().map(|s| s.model.clone()).collect();
    let run: Vec<String> = seeded_roster(&ps, &configs, 17).into_iter().map(|(_, c)| c.model).collect();
    assert_eq!(models, run);
}
