//! The login registry and the OAuth flow's computing half.

use proserpina::auth::oauth::{
    build_authorize_url, generate_pkce, generate_state, parse_callback, pkce_from_bytes,
    tokens_from_reply, REDIRECT_URI,
};
use proserpina::auth::{auth_registry, auth_to_http_config, find_provider_auth, AuthMethod};

#[test]
fn auth_registry_lists_key_providers_then_openai() {
    let names: Vec<&str> = auth_registry().iter().map(|p| p.name).collect();
    assert_eq!(names, vec!["deepseek", "zai", "dashscope", "google", "moonshot", "openai"]);
    assert!(matches!(auth_registry()[5].method, AuthMethod::OAuth { .. }));
}

#[test]
fn find_provider_auth_ignores_ascii_case() {
    assert_eq!(find_provider_auth("DeepSeek").unwrap().name, "deepseek");
    assert_eq!(find_provider_auth("OPENAI").unwrap().model, "gpt-4o");
    assert!(find_provider_auth("nobody").is_none());
    let cfg = auth_to_http_config(&find_provider_auth("zai").unwrap(), "k".to_owned());
    assert_eq!(cfg.base_url, "https://api.z.ai/api/coding/paas/v4");
    assert_eq!(cfg.api_key, "k");
}

#[test]
fn authorize_url_carries_every_parameter() {
    let url = build_authorize_url("cid", "https://a/authorize", REDIRECT_URI, "openid", "ch", "st");
    assert_eq!(
        url,
        "https://a/authorize?response_type=code&client_id=cid&redirect_uri=http://localhost:1455/auth/callback&scope=openid&code_challenge=ch&code_challenge_method=S256&state=st&codex_cli_simplified_flow=true&originator=proserpina"
    );
}

#[test]
fn callback_yields_the_code_or_a_page() {
    let (code, page) = parse_callback("/auth/callback?code=abc&state=s1", "s1");
    assert_eq!(code.as_deref(), Some("abc"));
    assert!(page.is_none());
    let (code, page) = parse_callback("/auth/callback?code=abc&state=evil", "s1");
    assert!(code.is_none());
    assert!(page.unwrap().contains("State mismatch"));
    let (code, page) = parse_callback("/auth/callback?error=access_denied&state=s1", "s1");
    assert!(code.is_none());
    assert!(page.unwrap().contains("Authentication failed: access_denied"));
    let (code, page) = parse_callback("/auth/callback?state=s1", "s1");
    assert!(code.is_none());
    assert!(page.unwrap().contains("Missing authorization code"));
    let (code, _) = parse_callback("/auth/callback", "");
    assert!(code.is_none());
}

#[test]
fn pkce_pair_is_base64url_of_seed_and_digest() {
    let (verifier, challenge) = pkce_from_bytes(&[0u8; 3]);
    assert_eq!(verifier, "AAAA");
    assert_eq!(challenge.len(), 43);
    assert_ne!(challenge, verifier);
    let (v, c) = generate_pkce();
    assert_eq!(v.len(), 43);
    assert_eq!(c.len(), 43);
    let s = generate_state();
    assert_eq!(s.len(), 32);
    assert!(s.chars().all(|ch| ch.is_ascii_hexdigit() && !ch.is_ascii_uppercase()));
}

#[test]
fn token_replies_become_tokens_or_errors() {
    let t = tokens_from_reply(r#"{"access_token":"a","refresh_token":"r","expires_in":10}"#, 1000)
        .unwrap()
        .unwrap();
    assert_eq!(t.access, "a");
    assert_eq!(t.refresh, "r");
    assert_eq!(t.expires_ms, 11000);
    let d = tokens_from_reply(r#"{"access_token":"a","refresh_token":"r"}"#, 0).unwrap().unwrap();
    assert_eq!(d.expires_ms, 3_600_000);
    let e = tokens_from_reply(r#"{"refresh_token":"r"}"#, 0).unwrap().unwrap_err();
    assert_eq!(e.message(), "agent `oauth` failed: no access_token");
    assert!(tokens_from_reply(r#"{"access_token":"a","refresh_token":"r","expires_in":18446744073709551615}"#, 1).is_none());
}

#[test]
fn token_reply_that_is_not_json_is_an_undecodable_body() {
    let r = proserpina::auth::oauth::tokens_from_reply("not json", 0).expect("no expiry to overflow");
    match r {
        Err(proserpina::PraxisError::AgentFailure { agent_id, detail }) => {
            assert_eq!(agent_id, "oauth");
            assert_eq!(detail, "parse: error decoding response body");
        }
        other => panic!("unexpected {other:?}"),
    }
}
