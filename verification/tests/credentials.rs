//! Credential resolution: registry, config overrides, custom providers and
//! key snapshots.

use proserpina::backend::credentials::{
    env_var_name_for, extract_host, merge_discovered, resolve_configs, resolve_configs_with_keyring,
    pi_configs_from_entries, Credentials, PiAuthEntry, PiProviderEntry, ProviderOverride,
};
use proserpina::backend::http::HttpConfig;
use proserpina::backend::roster::Provider;

fn env(keys: &[(&str, &str)]) -> Vec<(String, String)> {
    keys.iter().map(|(k, v)| (k.to_string(), v.to_string())).collect()
}

fn registry() -> Vec<Provider> {
    vec![
        Provider::new("deepseek")
            .with_base_url("https://api.deepseek.com/v1")
            .with_model("deepseek-chat")
            .with_key_env_var("DEEPSEEK_API_KEY"),
        Provider::new("zai")
            .with_base_url("https://open.bigmodel.cn/api/paas/v4")
            .with_model("glm-4-plus")
            .with_key_env_var("ZAI_API_KEY"),
    ]
}

fn ov(api_key: Option<&str>, model: Option<&str>, base_url: Option<&str>) -> ProviderOverride {
    ProviderOverride {
        api_key: api_key.map(|s| s.to_owned()),
        model: model.map(|s| s.to_owned()),
        base_url: base_url.map(|s| s.to_owned()),
        ..ProviderOverride::default()
    }
}

fn creds(sections: Vec<(&str, ProviderOverride)>) -> Credentials {
    let mut c = Credentials::default();
    for (name, o) in sections {
        c.set_override(name, o);
    }
    c
}

fn find<'a>(configs: &'a [HttpConfig], model: &str) -> Option<&'a HttpConfig> {
    configs.iter().find(|c| c.model == model)
}

#[test]
fn empty_credentials_have_no_overrides() {
    let creds = Credentials::default();
    assert!(creds.override_for("anything").is_none());
    assert!(creds.is_empty());
}

#[test]
fn resolve_returns_only_providers_with_a_resolved_key() {
    let env = env(&[("DEEPSEEK_API_KEY", "sk-env")]);
    let creds = Credentials::default();
    let configs = resolve_configs(&registry(), &creds, &env).expect("ok");
    assert_eq!(configs.len(), 1);
    assert_eq!(configs[0].model, "deepseek-chat");
    assert_eq!(configs[0].api_key, "sk-env");
}

#[test]
fn resolve_env_key_takes_precedence_over_config_key() {
    let env = env(&[("DEEPSEEK_API_KEY", "sk-env")]);
    let creds = creds(vec![("deepseek", ov(Some("sk-config"), None, None))]);
    let configs = resolve_configs(&registry(), &creds, &env).unwrap();
    assert_eq!(configs[0].api_key, "sk-env");
}

#[test]
fn resolve_config_key_used_when_env_absent() {
    let env = env(&[]);
    let creds = creds(vec![("deepseek", ov(Some("sk-config"), None, None))]);
    let configs = resolve_configs(&registry(), &creds, &env).unwrap();
    assert_eq!(configs[0].api_key, "sk-config");
}

#[test]
fn resolve_applies_config_model_override_over_registry_default() {
    let env = env(&[("ZAI_API_KEY", "k")]);
    let creds = creds(vec![("zai", ov(Some("k"), Some("glm-5.2"), None))]);
    let configs = resolve_configs(&registry(), &creds, &env).unwrap();
    let zai = find(&configs, "glm-5.2").expect("glm-5.2 should be present");
    assert_eq!(zai.base_url, "https://open.bigmodel.cn/api/paas/v4");
}

#[test]
fn resolve_applies_config_base_url_override() {
    let env = env(&[("DEEPSEEK_API_KEY", "k")]);
    let creds = creds(vec![("deepseek", ov(Some("k"), None, Some("https://proxy.example/v1")))]);
    let configs = resolve_configs(&registry(), &creds, &env).unwrap();
    assert_eq!(configs[0].base_url, "https://proxy.example/v1");
}

#[test]
fn resolve_includes_custom_providers_not_in_the_registry() {
    let env = env(&[]);
    let creds = creds(vec![(
        "my-local-llm",
        ov(Some("ollama"), Some("llama3"), Some("http://localhost:11434/v1")),
    )]);
    let configs = resolve_configs(&registry(), &creds, &env).unwrap();
    let custom = find(&configs, "llama3").expect("custom provider resolves");
    assert_eq!(custom.base_url, "http://localhost:11434/v1");
    assert_eq!(custom.api_key, "ollama");
}

#[test]
fn resolve_errors_when_a_custom_provider_is_missing_required_fields() {
    let env = env(&[]);
    let creds = creds(vec![("my-broken", ov(Some("k"), None, None))]);
    let result = resolve_configs(&registry(), &creds, &env);
    let err = result.expect_err("missing fields -> error");
    let msg = err.message();
    assert!(msg.contains("my-broken"), "error should name the provider");
    assert!(msg.contains("model"));
    assert!(msg.contains("base_url"));
}

#[test]
fn resolve_custom_provider_env_fallback_uses_uppercased_name() {
    let env = env(&[("MY_LOCAL_LLM_API_KEY", "sk-env")]);
    let creds = creds(vec![("my-local-llm", ov(None, Some("m"), Some("http://x/v1")))]);
    let configs = resolve_configs(&registry(), &creds, &env).unwrap();
    assert_eq!(configs[0].api_key, "sk-env");
}

#[test]
fn resolve_returns_empty_when_nothing_authed_and_no_custom() {
    let env = env(&[]);
    let creds = Credentials::default();
    let configs = resolve_configs(&registry(), &creds, &env).unwrap();
    assert!(configs.is_empty());
}

#[test]
fn resolves_authed_config_from_explicit_env_keys() {
    let registry = Provider::registry();
    let creds = Credentials::default();
    let env = env(&[("DEEPSEEK_API_KEY", "sk-test")]);
    let configs = resolve_configs(&registry, &creds, &env).unwrap();
    assert_eq!(configs.len(), 1);
    assert_eq!(configs[0].api_key, "sk-test");
    assert!(!configs[0].model.is_empty());
    assert!(!configs[0].base_url.is_empty());
}

#[test]
fn no_keys_yields_no_configs() {
    let registry = Provider::registry();
    let creds = Credentials::default();
    let configs = resolve_configs(&registry, &creds, &[]).unwrap();
    assert!(configs.is_empty());
}

#[test]
fn config_override_beats_registry_default_model() {
    let registry = Provider::registry();
    let creds = creds(vec![("openai", ov(Some("sk-from-config"), Some("gpt-5.5"), None))]);
    let configs = resolve_configs(&registry, &creds, &[]).unwrap();
    assert_eq!(configs.len(), 1);
    assert_eq!(configs[0].model, "gpt-5.5");
    assert_eq!(configs[0].api_key, "sk-from-config");
}

#[test]
fn keyring_key_wins_over_env_and_config() {
    let keyring = env(&[("DEEPSEEK_API_KEY", "sk-keychain")]);
    let env_keys = env(&[("DEEPSEEK_API_KEY", "sk-env")]);
    let creds = creds(vec![("deepseek", ov(Some("sk-config"), None, None))]);
    let configs = resolve_configs_with_keyring(&registry(), &creds, &env_keys, &keyring).expect("ok");
    assert_eq!(configs.len(), 1);
    assert_eq!(configs[0].api_key, "sk-keychain", "keyring must win");
}

#[test]
fn env_used_when_keyring_entry_absent() {
    let keyring = env(&[]);
    let env_keys = env(&[("DEEPSEEK_API_KEY", "sk-env")]);
    let creds = Credentials::default();
    let configs = resolve_configs_with_keyring(&registry(), &creds, &env_keys, &keyring).expect("ok");
    assert_eq!(configs[0].api_key, "sk-env");
}

#[test]
fn keyring_entry_under_wrong_name_is_ignored() {
    let keyring = env(&[("WRONG_NAME", "sk-x")]);
    let env_keys = env(&[]);
    let creds = Credentials::default();
    let configs = resolve_configs_with_keyring(&registry(), &creds, &env_keys, &keyring).expect("ok");
    assert!(configs.is_empty(), "no matching keyring/env/config -> not authed");
}

#[test]
fn keyring_and_env_can_auth_different_providers_simultaneously() {
    let registry = vec![
        Provider::new("deepseek")
            .with_base_url("https://api.deepseek.com/v1")
            .with_model("deepseek-chat")
            .with_key_env_var("DEEPSEEK_API_KEY"),
        Provider::new("zai")
            .with_base_url("https://api.z.ai/api/coding/paas/v4")
            .with_model("glm-5.2")
            .with_key_env_var("ZAI_API_KEY"),
    ];
    let keyring = env(&[("DEEPSEEK_API_KEY", "sk-keychain")]);
    let env_keys = env(&[("ZAI_API_KEY", "sk-env")]);
    let creds = Credentials::default();
    let configs = resolve_configs_with_keyring(&registry, &creds, &env_keys, &keyring).expect("ok");
    assert_eq!(configs.len(), 2);
    assert_eq!(find(&configs, "deepseek-chat").unwrap().api_key, "sk-keychain");
    assert_eq!(find(&configs, "glm-5.2").unwrap().api_key, "sk-env");
}

#[test]
fn oauth_access_token_wins_over_every_key() {
    let mut o = ov(Some("sk-config"), None, None);
    o.oauth_access = Some("tok".to_owned());
    let creds = creds(vec![("deepseek", o)]);
    let configs = resolve_configs_with_keyring(
        &registry(),
        &creds,
        &env(&[("DEEPSEEK_API_KEY", "sk-env")]),
        &env(&[("DEEPSEEK_API_KEY", "sk-keychain")]),
    )
    .unwrap();
    assert_eq!(configs[0].api_key, "tok");
}

#[test]
fn set_merge_and_remove_overrides() {
    let mut c = Credentials::default();
    c.set_override("deepseek", ov(Some("k"), None, None));
    c.merge_model("deepseek", "m1");
    c.merge_model("fresh", "m2");
    assert_eq!(c.override_for("deepseek").unwrap().api_key.as_deref(), Some("k"));
    assert_eq!(c.override_for("deepseek").unwrap().model.as_deref(), Some("m1"));
    assert_eq!(c.override_for("fresh").unwrap().model.as_deref(), Some("m2"));
    c.remove_override("deepseek");
    assert!(c.override_for("deepseek").is_none());
    assert_eq!(c.iter().len(), 1);
}

#[test]
fn to_toml_string_writes_each_section() {
    let mut c = Credentials::default();
    assert_eq!(c.to_toml_string(), "# Proserpina credentials\n");
    let mut o = ov(Some("k"), Some("m"), None);
    o.oauth_expires = Some(1234);
    c.set_override("deepseek", o);
    assert_eq!(c.to_toml_string(), "[deepseek]\napi_key = \"k\"\nmodel = \"m\"\noauth_expires = 1234\n\n");
}

#[test]
fn env_var_names_and_hosts() {
    assert_eq!(env_var_name_for("my-local-llm"), "MY_LOCAL_LLM_API_KEY");
    assert_eq!(extract_host("https://api.deepseek.com/v1"), "api.deepseek.com");
    assert_eq!(extract_host("https://api.deepseek.com"), "api.deepseek.com");
    assert_eq!(extract_host("http://localhost:11434/v1"), "localhost");
    assert_eq!(extract_host("example.org/x"), "example.org");
}

#[test]
fn discovered_configs_replace_same_host_and_excludes_apply() {
    let c = |u: &str, m: &str| HttpConfig { base_url: u.to_owned(), model: m.to_owned(), api_key: "k".to_owned() };
    let resolved = vec![c("https://api.deepseek.com/v1", "deepseek-chat"), c("https://api.z.ai/v4", "glm")];
    let discovered = vec![c("https://api.deepseek.com/beta", "deepseek-v4"), c("https://x.ai/v1", "grok")];
    let pool = merge_discovered(resolved, discovered, &["grok".to_owned()], &[]);
    let models: Vec<&str> = pool.iter().map(|c| c.model.as_str()).collect();
    assert_eq!(models, vec!["glm", "deepseek-v4"]);
}

#[test]
fn pi_entries_resolve_keys_from_auth_before_env() {
    let entries = vec![
        PiProviderEntry {
            api: Some("openai-completions".to_owned()),
            base_url: Some("https://pi.example/v1".to_owned()),
            api_key_ref: Some("$PI_KEY".to_owned()),
            models: Some(Some("m1".to_owned())),
        },
        PiProviderEntry {
            api: Some("anthropic".to_owned()),
            base_url: Some("https://other.example".to_owned()),
            api_key_ref: Some("$PI_KEY".to_owned()),
            models: Some(None),
        },
        PiProviderEntry {
            api: Some("openai-completions".to_owned()),
            base_url: Some("https://pi2.example/v1".to_owned()),
            api_key_ref: Some("ENV_ONLY".to_owned()),
            models: Some(None),
        },
    ];
    let env = vec![("ENV_ONLY".to_owned(), "e-key".to_owned()), ("PI_KEY".to_owned(), "env-pi".to_owned())];
    let without_auth = pi_configs_from_entries(&entries, None, &env);
    assert_eq!(without_auth.len(), 2);
    assert_eq!(without_auth[0].api_key, "env-pi");
    assert_eq!(without_auth[0].model, "m1");
    assert_eq!(without_auth[1].model, "default");
    assert_eq!(without_auth[1].api_key, "e-key");
    let auth = vec![PiAuthEntry { name: "pi".to_owned(), kind: Some("api_key".to_owned()), key: Some("auth-pi".to_owned()) }];
    let var = proserpina::backend::credentials::auth_entry_to_env_var("pi");
    let entries2 = vec![PiProviderEntry {
        api: Some("openai-completions".to_owned()),
        base_url: Some("https://pi.example/v1".to_owned()),
        api_key_ref: Some(format!("${var}")),
        models: Some(Some("m1".to_owned())),
    }];
    let env2 = vec![(var.clone(), "env-value".to_owned())];
    let with_auth = pi_configs_from_entries(&entries2, Some(&auth), &env2);
    assert_eq!(with_auth.len(), 1);
    assert_eq!(with_auth[0].api_key, "auth-pi");
}
