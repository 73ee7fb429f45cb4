//! The OAuth PKCE flow for OpenAI Codex (ChatGPT): the code verifier and
//! challenge, the authorization URL, the callback and the token replies.
//!
//! The browser, the callback listener and the token requests are the
//! application's; what they send and what their replies mean is here.

use crate::error::PraxisError;
use crate::backend::http::is_agent_failure;
use crate::text::{chars_of, copy_range, next_char, next_char_at, lemma_next_char_bounds, push_str, str_eq, string_from_chars, string_of};
use crate::backend::credentials::{lookup, find_entry, keys, names_of};
use vstd::prelude::*;

verus! {

/// The tokens of a successful exchange or refresh.
#[derive(Debug)]
pub struct OAuthTokens {
    /// The access token.
    pub access: String,
    /// The refresh token.
    pub refresh: String,
    /// When the access token expires, in milliseconds since the Unix epoch.
    pub expires_ms: u64,
}

/// The port of the local callback listener.
pub const CALLBACK_PORT: u16 = 1455;

/// The redirect URI registered for the callback listener.
pub const REDIRECT_URI: &'static str = "http://localhost:1455/auth/callback";

/// The URL-safe base64 alphabet (RFC 4648, section 5).
pub open spec fn url_alphabet() -> Seq<char> {
    "ABCDEFGHIJKLMNOPQRSTUVWXYZabcdefghijklmnopqrstuvwxyz0123456789-_"@
}

/// The URL-safe, unpadded base64 text of `bytes`: each group of three
/// bytes becomes four characters of six bits each, high bits first; a last
/// group of one or two bytes becomes two or three characters, with no `=`.
pub open spec fn base64_url_nopad(bytes: Seq<u8>) -> Seq<char>
    decreases bytes.len(),
{
    let a = url_alphabet();
    let b0 = bytes[0] as int;
    let b1 = bytes[1] as int;
    let b2 = bytes[2] as int;
    if bytes.len() == 0 {
        Seq::empty()
    } else if bytes.len() == 1 {
        seq![a[b0 / 4], a[(b0 % 4) * 16]]
    } else if bytes.len() == 2 {
        seq![a[b0 / 4], a[(b0 % 4) * 16 + b1 / 16], a[(b1 % 16) * 4]]
    } else {
        seq![
            a[b0 / 4],
            a[(b0 % 4) * 16 + b1 / 16],
            a[(b1 % 16) * 4 + b2 / 64],
            a[b2 % 64],
        ] + base64_url_nopad(bytes.skip(3))
    }
}

/// The SHA-256 digest of the UTF-8 bytes of `s`.
pub uninterp spec fn sha256_utf8(s: Seq<char>) -> Seq<u8>;

/// Encodes `bytes` with `base64`'s `URL_SAFE_NO_PAD` engine
/// (`Engine::encode`): URL-safe alphabet, no padding.
#[verifier::external_body]
fn encode_base64_url(bytes: &[u8]) -> (r: String)
    ensures
        r@ == base64_url_nopad(bytes@),
{
    base64::Engine::encode(&base64::engine::general_purpose::URL_SAFE_NO_PAD, bytes)
}

/// Hashes the UTF-8 bytes of `s` with `sha2::Sha256` (`Digest::digest`).
/// The contract names the result [`sha256_utf8`]; a SHA-256 digest is 32
/// bytes long.
#[verifier::external_body]
fn sha256_of(s: &str) -> (r: Vec<u8>)
    ensures
        r@ == sha256_utf8(s@),
        r@.len() == 32,
{
    <sha2::Sha256 as sha2::Digest>::digest(s.as_bytes()).to_vec()
}

/// Fills `n` bytes from the thread-local generator (`rand::rng()` and
/// `RngCore::fill_bytes`). Which bytes come out is up to chance, so the
/// contract says only how many.
#[verifier::external_body]
fn random_bytes(n: usize) -> (r: Vec<u8>)
    ensures
        r@.len() == n,
{
    let mut bytes = vec![0u8; n];
    rand::RngCore::fill_bytes(&mut rand::rng(), &mut bytes);
    bytes
}

/// The lowercase hexadecimal digit of `d < 16`.
pub open spec fn hex_digit(d: u8) -> char {
    if d < 10 {
        (('0' as u8) + d) as char
    } else {
        (('a' as u8) + (d - 10)) as char
    }
}

/// The lowercase hexadecimal text of `bytes`: two digits per byte, the high
/// half first.
pub open spec fn hex_lower(bytes: Seq<u8>) -> Seq<char>
    decreases bytes.len(),
{
    if bytes.len() == 0 {
        Seq::empty()
    } else {
        hex_lower(bytes.drop_last()) + seq![hex_digit(bytes.last() / 16), hex_digit(bytes.last() % 16)]
    }
}

/// Encodes `bytes` with `hex::encode`, which writes two lowercase digits
/// per byte, the high half first.
#[verifier::external_body]
fn encode_hex(bytes: &[u8]) -> (r: String)
    ensures
        r@ == hex_lower(bytes@),
{
    hex::encode(bytes)
}

/// The PKCE pair of a random seed: the verifier is the seed in URL-safe
/// base64, the challenge the digest of the verifier in URL-safe base64.
pub fn pkce_from_bytes(seed: &[u8]) -> (r: (String, String))
    ensures
        r.0@ == base64_url_nopad(seed@),
        r.1@ == base64_url_nopad(sha256_utf8(r.0@)),
{
    let verifier = encode_base64_url(seed);
    let digest = sha256_of(verifier.as_str());
    let challenge = encode_base64_url(digest.as_slice());
    (verifier, challenge)
}

/// Generates a PKCE code verifier from 32 random bytes, and its S256
/// challenge.
pub fn generate_pkce() -> (r: (String, String))
    ensures
        exists|seed: Seq<u8>|
            seed.len() == 32 && r.0@ == base64_url_nopad(seed) && r.1@ == base64_url_nopad(
                sha256_utf8(r.0@),
            ),
{
    let seed = random_bytes(32);
    pkce_from_bytes(seed.as_slice())
}

/// Generates a random state string for CSRF protection: 16 random bytes in
/// lowercase hex.
pub fn generate_state() -> (r: String)
    ensures
        exists|seed: Seq<u8>| seed.len() == 16 && r@ == hex_lower(seed),
{
    let seed = random_bytes(16);
    encode_hex(seed.as_slice())
}

/// The authorization URL the browser is sent to.
pub open spec fn authorize_url_spec(
    client_id: Seq<char>,
    authorize_url: Seq<char>,
    redirect_uri: Seq<char>,
    scope: Seq<char>,
    challenge: Seq<char>,
    state: Seq<char>,
) -> Seq<char> {
    authorize_url + "?response_type=code&client_id="@ + client_id + "&redirect_uri="@ + redirect_uri
        + "&scope="@ + scope + "&code_challenge="@ + challenge
        + "&code_challenge_method=S256&state="@ + state
        + "&codex_cli_simplified_flow=true&originator=proserpina"@
}

/// Builds the authorization URL for the browser.
pub fn build_authorize_url(
    client_id: &str,
    authorize_url: &str,
    redirect_uri: &str,
    scope: &str,
    challenge: &str,
    state: &str,
) -> (r: String)
    ensures
        r@ == authorize_url_spec(client_id@, authorize_url@, redirect_uri@, scope@, challenge@, state@),
{
    let mut r = string_of(authorize_url);
    push_str(&mut r, "?response_type=code&client_id=");
    push_str(&mut r, client_id);
    push_str(&mut r, "&redirect_uri=");
    push_str(&mut r, redirect_uri);
    push_str(&mut r, "&scope=");
    push_str(&mut r, scope);
    push_str(&mut r, "&code_challenge=");
    push_str(&mut r, challenge);
    push_str(&mut r, "&code_challenge_method=S256&state=");
    push_str(&mut r, state);
    push_str(&mut r, "&codex_cli_simplified_flow=true&originator=proserpina");
    r
}

/// The text between the first and the second `?` of `url` (empty when it
/// has no `?`), as `url.split('?').nth(1)` gives it.
pub open spec fn query_of(url: Seq<char>) -> Seq<char> {
    let q = next_char(url, 0, '?');
    if q >= url.len() {
        Seq::empty()
    } else {
        let rest = url.subrange(q + 1int, url.len() as int);
        rest.take(next_char(rest, 0, '?') as int)
    }
}

/// The `key=value` pairs of a query, in order: each `&`-separated piece
/// split at its first `=`; pieces without `=` are skipped.
pub open spec fn query_pairs(q: Seq<char>) -> Seq<(Seq<char>, Seq<char>)> {
    pairs_of(crate::summary::pieces(q, 0, '&'))
}

/// The pieces that have a `=`, split at the first one.
pub open spec fn pairs_of(ps: Seq<Seq<char>>) -> Seq<(Seq<char>, Seq<char>)>
    decreases ps.len(),
{
    if ps.len() == 0 {
        Seq::empty()
    } else {
        let p = ps.last();
        let e = next_char(p, 0, '=');
        pairs_of(ps.drop_last()) + if e >= p.len() {
            Seq::empty()
        } else {
            seq![(p.take(e as int), p.subrange(e + 1int, p.len() as int))]
        }
    }
}

/// The page shown when the provider reports an error.
pub open spec fn error_page(err: Seq<char>) -> Seq<char> {
    "<html><body><h2>Authentication failed: "@ + err
        + "</h2><p>You can close this window.</p></body></html>"@
}

/// What a callback URL gives: the authorization code, or the page telling
/// why there is none. The provider's `error` wins; then the state must
/// match; then the code must be there. A later pair of a key wins.
pub open spec fn callback_outcome(url: Seq<char>, expected_state: Seq<char>) -> (Option<Seq<char>>, Option<Seq<char>>) {
    let params = query_pairs(query_of(url));
    match lookup(params, "error"@) {
        Some(err) => (None, Some(error_page(err))),
        None => {
            let state = match lookup(params, "state"@) {
                Some(s) => s,
                None => Seq::empty(),
            };
            if state != expected_state {
                (None, Some("<html><body><h2>State mismatch — possible CSRF attack.</h2></body></html>"@))
            } else {
                match lookup(params, "code"@) {
                    Some(c) => (Some(c), None),
                    None => (None, Some("<html><body><h2>Missing authorization code.</h2></body></html>"@)),
                }
            }
        },
    }
}

/// The views of string pairs.
pub open spec fn pair_views(ps: Seq<(String, String)>) -> Seq<(Seq<char>, Seq<char>)> {
    ps.map_values(|p: (String, String)| (p.0@, p.1@))
}

/// The query of `url`, as characters.
fn query_chars(url: &Vec<char>) -> (r: Vec<char>)
    ensures
        r@ == query_of(url@),
{
    let q = next_char_at(url, 0, '?');
    proof {
        lemma_next_char_bounds(url@, 0, '?');
    }
    if q >= url.len() {
        return Vec::new();
    }
    let rest = copy_range(url, q + 1, url.len());
    let e = next_char_at(&rest, 0, '?');
    proof {
        lemma_next_char_bounds(rest@, 0, '?');
    }
    let r = copy_range(&rest, 0, e);
    assert(r@ =~= rest@.take(e as int));
    r
}

/// The `key=value` pairs of a query.
fn parse_query(q: &Vec<char>) -> (r: Vec<(String, String)>)
    ensures
        pair_views(r@) == query_pairs(q@),
{
    let pieces = crate::summary::split_on(q, '&');
    let ghost pv = crate::summary::char_views(pieces@);
    let mut out: Vec<(String, String)> = Vec::new();
    let mut i: usize = 0;
    while i < pieces.len()
        invariant
            i <= pieces@.len(),
            pv == crate::summary::char_views(pieces@),
            pair_views(out@) == pairs_of(pv.take(i as int)),
        decreases pieces@.len() - i,
    {
        let ghost before = out@;
        assert(pv.take(i + 1).drop_last() =~= pv.take(i as int));
        let p = &pieces[i];
        let e = next_char_at(p, 0, '=');
        proof {
            lemma_next_char_bounds(p@, 0, '=');
        }
        if e < p.len() {
            let k = string_from_chars(p, 0, e);
            let v = string_from_chars(p, e + 1, p.len());
            assert(k@ =~= p@.take(e as int));
            out.push((k, v));
            assert(pair_views(out@) =~= pair_views(before).push((k@, v@)));
        }
        assert(pair_views(out@) =~= pairs_of(pv.take(i + 1)));
        i = i + 1;
    }
    assert(pv.take(i as int) =~= pv);
    out
}

/// The value of the last pair of `key`.
fn param(ps: &Vec<(String, String)>, key: &str) -> (r: Option<String>)
    ensures
        crate::persona::opt_view(r) == lookup(pair_views(ps@), key@),
{
    proof {
        assert(keys(pair_views(ps@)) =~= names_of(ps@));
    }
    match find_entry(ps.as_slice(), key) {
        Some(i) => Some(ps[i].1.clone()),
        None => None,
    }
}

/// Parses the callback URL: answers the authorization code, or the page
/// telling the browser why there is none.
pub fn parse_callback(url: &str, expected_state: &str) -> (r: (Option<String>, Option<String>))
    ensures
        (crate::persona::opt_view(r.0), crate::persona::opt_view(r.1)) == callback_outcome(url@, expected_state@),
{
    let v = chars_of(url);
    let q = query_chars(&v);
    let params = parse_query(&q);
    proof {
        reveal_strlit("error");
        reveal_strlit("state");
        reveal_strlit("code");
    }
    match param(&params, "error") {
        Some(err) => {
            let mut page = string_of("<html><body><h2>Authentication failed: ");
            push_str(&mut page, err.as_str());
            push_str(&mut page, "</h2><p>You can close this window.</p></body></html>");
            return (None, Some(page));
        },
        None => {},
    }
    let state = match param(&params, "state") {
        Some(s) => s,
        None => String::new(),
    };
    if !str_eq(state.as_str(), expected_state) {
        return (None, Some(string_of("<html><body><h2>State mismatch — possible CSRF attack.</h2></body></html>")));
    }
    match param(&params, "code") {
        Some(c) => (Some(c), None),
        None => (None, Some(string_of("<html><body><h2>Missing authorization code.</h2></body></html>"))),
    }
}

/// The page shown after a successful login.
pub const SUCCESS_HTML: &'static str = "<html><body><h2>✓ Proserpina authenticated successfully!</h2><p>You can close this window.</p></body></html>";

/// What `serde_json` reads from a token reply: `Err` with the parser's
/// message unless it is JSON; else its `access_token` and `refresh_token`
/// strings and its `expires_in` integer, where present.
pub uninterp spec fn token_reply_fields(body: Seq<char>) -> Result<(Option<Seq<char>>, Option<Seq<char>>, Option<u64>), Seq<char>>;

/// Parses a token reply with `serde_json::from_str` and reads its
/// `access_token`, `refresh_token` (`Value::as_str`) and `expires_in`
/// (`Value::as_u64`). The contract names the result [`token_reply_fields`].
#[verifier::external_body]
fn read_token_reply(body: &str) -> (r: Result<(Option<String>, Option<String>, Option<u64>), String>)
    ensures
        match r {
            Ok((a, f, e)) => token_reply_fields(body@) == Ok::<(Option<Seq<char>>, Option<Seq<char>>, Option<u64>), Seq<char>>(
                (crate::persona::opt_view(a), crate::persona::opt_view(f), e),
            ),
            Err(m) => token_reply_fields(body@) == Err::<(Option<Seq<char>>, Option<Seq<char>>, Option<u64>), Seq<char>>(m@),
        },
{
    let v: serde_json::Value = serde_json::from_str(body).map_err(|e| e.to_string())?;
    let text = |k: &str| v.get(k).and_then(|x| x.as_str()).map(|s| s.to_owned());
    Ok((text("access_token"), text("refresh_token"), v.get("expires_in").and_then(|x| x.as_u64())))
}

/// The tokens of a reply's fields, received at `now_ms`: a reply that is
/// not JSON is refused as an undecodable body; the access and refresh
/// tokens must be there; the access token lives `expires_in`
/// seconds (an hour when the reply does not say).
pub open spec fn tokens_outcome(
    fields: Result<(Option<Seq<char>>, Option<Seq<char>>, Option<u64>), Seq<char>>,
    now_ms: u64,
) -> Result<(Seq<char>, Seq<char>, int), Seq<char>> {
    match fields {
        Err(_) => Err("parse: error decoding response body"@),
        Ok((None, _, _)) => Err("no access_token"@),
        Ok((Some(_), None, _)) => Err("no refresh_token"@),
        Ok((Some(a), Some(f), e)) => Ok(
            (
                a,
                f,
                now_ms + 1000 * match e {
                    Some(s) => s as int,
                    None => 3600,
                },
            ),
        ),
    }
}

/// Whether the expiry of a reply's fields fits in a `u64`.
pub open spec fn expiry_fits(
    fields: Result<(Option<Seq<char>>, Option<Seq<char>>, Option<u64>), Seq<char>>,
    now_ms: u64,
) -> bool {
    match tokens_outcome(fields, now_ms) {
        Ok(t) => t.2 <= u64::MAX,
        Err(_) => true,
    }
}

/// An expiry `secs` seconds after `now` fits in a `u64` exactly when
/// `secs` is at most `(u64::MAX - now) / 1000`.
proof fn lemma_expiry_bound(secs: u64, now: u64)
    ensures
        (secs <= (u64::MAX - now) / 1000) <==> (now + 1000 * secs <= u64::MAX),
{
    let m = (u64::MAX - now) as int;
    let q = m / 1000;
    assert(1000 * q <= m < 1000 * q + 1000) by (nonlinear_arith)
        requires
            m >= 0,
            q == m / 1000,
    ;
    if secs <= q {
        assert(1000 * secs <= 1000 * q) by (nonlinear_arith)
            requires
                secs <= q,
        ;
    } else {
        assert(1000 * secs >= 1000 * q + 1000) by (nonlinear_arith)
            requires
                secs >= q + 1,
        ;
    }
}

/// Turns the fields of a token reply into tokens, received at `now_ms`; a
/// reply that is not JSON, or lacks a token, is an `oauth` failure.
pub fn tokens_from_fields(
    fields: Result<(Option<String>, Option<String>, Option<u64>), String>,
    now_ms: u64,
) -> (r: Result<OAuthTokens, PraxisError>)
    requires
        expiry_fits(
            match fields {
                Ok((a, f, e)) => Ok((crate::persona::opt_view(a), crate::persona::opt_view(f), e)),
                Err(m) => Err(m@),
            },
            now_ms,
        ),
    ensures
        match (r, tokens_outcome(
            match fields {
                Ok((a, f, e)) => Ok((crate::persona::opt_view(a), crate::persona::opt_view(f), e)),
                Err(m) => Err(m@),
            },
            now_ms,
        )) {
            (Ok(t), Ok(v)) => t.access@ == v.0 && t.refresh@ == v.1 && t.expires_ms == v.2,
            (Err(e), Err(d)) => is_agent_failure(e, ("oauth"@, d)),
            _ => false,
        },
{
    match fields {
        Err(_) => Err(PraxisError::agent_failure("oauth", "parse: error decoding response body")),
        Ok((None, _, _)) => Err(PraxisError::agent_failure("oauth", "no access_token")),
        Ok((Some(_), None, _)) => Err(PraxisError::agent_failure("oauth", "no refresh_token")),
        Ok((Some(a), Some(f), e)) => {
            let secs: u64 = match e {
                Some(s) => s,
                None => 3600,
            };
            Ok(OAuthTokens { access: a, refresh: f, expires_ms: now_ms + secs * 1000 })
        },
    }
}

/// Turns the body of a successful token reply, received at `now_ms`, into
/// tokens; `None` when the expiry it gives does not fit in a `u64`.
pub fn tokens_from_reply(body: &str, now_ms: u64) -> (r: Option<Result<OAuthTokens, PraxisError>>)
    ensures
        r is None <==> !expiry_fits(token_reply_fields(body@), now_ms),
        match (r, tokens_outcome(token_reply_fields(body@), now_ms)) {
            (None, _) => true,
            (Some(Ok(t)), Ok(v)) => t.access@ == v.0 && t.refresh@ == v.1 && t.expires_ms == v.2,
            (Some(Err(e)), Err(d)) => is_agent_failure(e, ("oauth"@, d)),
            _ => false,
        },
{
    let fields = read_token_reply(body);
    let fits = match &fields {
        Ok((Some(_), Some(_), e)) => {
            let secs: u64 = match e {
                Some(s) => *s,
                None => 3600,
            };
            proof {
                lemma_expiry_bound(secs, now_ms);
            }
            secs <= (u64::MAX - now_ms) / 1000
        },
        _ => true,
    };
    if !fits {
        return None;
    }
    Some(tokens_from_fields(fields, now_ms))
}

} // verus!
