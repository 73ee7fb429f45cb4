//! The auth subsystem: which providers can be logged into, and how.
//!
//! API-key providers are logged into by entering a key; the OpenAI (Codex)
//! provider by an OAuth PKCE flow ([`oauth`]). The interactive UI is behind
//! the [`AuthUi`] trait.

pub mod oauth;

use crate::backend::http::HttpConfig;
use crate::error::PraxisError;
use crate::text::{chars_of, string_of};
use vstd::prelude::*;

verus! {

/// How a provider authenticates.
#[derive(Debug, Clone, Copy)]
pub enum AuthMethod {
    /// An API key entered by the user.
    ApiKey {
        /// The key variable of this provider.
        env_var: &'static str,
        /// Where to sign up for a key.
        signup_url: &'static str,
    },
    /// The OAuth PKCE flow.
    OAuth {
        /// The OAuth client id.
        client_id: &'static str,
        /// The authorization endpoint.
        authorize_url: &'static str,
        /// The token endpoint.
        token_url: &'static str,
        /// The requested scopes.
        scope: &'static str,
    },
}

/// The abstract content of an auth method.
pub enum MethodView {
    ApiKey { env_var: Seq<char>, signup_url: Seq<char> },
    OAuth { client_id: Seq<char>, authorize_url: Seq<char>, token_url: Seq<char>, scope: Seq<char> },
}

impl View for AuthMethod {
    type V = MethodView;

    open spec fn view(&self) -> MethodView {
        match *self {
            AuthMethod::ApiKey { env_var, signup_url } => MethodView::ApiKey {
                env_var: env_var@,
                signup_url: signup_url@,
            },
            AuthMethod::OAuth { client_id, authorize_url, token_url, scope } => MethodView::OAuth {
                client_id: client_id@,
                authorize_url: authorize_url@,
                token_url: token_url@,
                scope: scope@,
            },
        }
    }
}

/// A provider's auth configuration: the method and where to connect.
#[derive(Debug, Clone, Copy)]
pub struct ProviderAuth {
    /// The provider's name (e.g. `deepseek`).
    pub name: &'static str,
    /// How the provider authenticates.
    pub method: AuthMethod,
    /// The base URL for API calls.
    pub base_url: &'static str,
    /// The default model.
    pub model: &'static str,
}

/// The abstract content of a provider auth entry.
pub struct ProviderAuthView {
    pub name: Seq<char>,
    pub method: MethodView,
    pub base_url: Seq<char>,
    pub model: Seq<char>,
}

impl View for ProviderAuth {
    type V = ProviderAuthView;

    open spec fn view(&self) -> ProviderAuthView {
        ProviderAuthView {
            name: self.name@,
            method: self.method@,
            base_url: self.base_url@,
            model: self.model@,
        }
    }
}

/// An API-key entry of the auth registry.
pub open spec fn key_entry(name: Seq<char>, env_var: Seq<char>, signup_url: Seq<char>, base_url: Seq<char>, model: Seq<char>) -> ProviderAuthView {
    ProviderAuthView { name, method: MethodView::ApiKey { env_var, signup_url }, base_url, model }
}

/// The auth registry: DeepSeek, Z.ai, DashScope, Google and Moonshot by API
/// key, then OpenAI by OAuth.
pub open spec fn auth_registry_spec() -> Seq<ProviderAuthView> {
    seq![
        key_entry("deepseek"@, "DEEPSEEK_API_KEY"@, "https://platform.deepseek.com/api_keys"@, "https://api.deepseek.com"@, "deepseek-chat"@),
        key_entry("zai"@, "ZAI_API_KEY"@, "https://z.ai/manage-apikey/apikey-list"@, "https://api.z.ai/api/coding/paas/v4"@, "glm-5.2"@),
        key_entry("dashscope"@, "DASHSCOPE_API_KEY"@, "https://dashscope.console.aliyun.com/apiKey"@, "https://dashscope.aliyuncs.com/compatible-mode/v1"@, "qwen-plus"@),
        key_entry("google"@, "GOOGLE_API_KEY"@, "https://aistudio.google.com/app/apikey"@, "https://generativelanguage.googleapis.com/v1beta/openai"@, "gemini-1.5-pro"@),
        key_entry("moonshot"@, "MOONSHOT_API_KEY"@, "https://platform.moonshot.cn/console/api-keys"@, "https://api.moonshot.cn/v1"@, "moonshot-v1-auto"@),
        ProviderAuthView {
            name: "openai"@,
            method: MethodView::OAuth {
                client_id: "app_EMoamEEZ73f0CkXaXp7hrann"@,
                authorize_url: "https://auth.openai.com/oauth/authorize"@,
                token_url: "https://auth.openai.com/oauth/token"@,
                scope: "openid profile email offline_access"@,
            },
            base_url: "https://api.openai.com/v1"@,
            model: "gpt-4o"@,
        },
    ]
}

/// The views of auth entries.
pub open spec fn auth_views(ps: Seq<ProviderAuth>) -> Seq<ProviderAuthView> {
    ps.map_values(|p: ProviderAuth| p@)
}

fn key_provider(name: &'static str, env_var: &'static str, signup_url: &'static str, base_url: &'static str, model: &'static str) -> (r: ProviderAuth)
    ensures
        r@ == key_entry(name@, env_var@, signup_url@, base_url@, model@),
{
    ProviderAuth { name, method: AuthMethod::ApiKey { env_var, signup_url }, base_url, model }
}

/// The providers this tool knows how to log into.
pub fn auth_registry() -> (r: Vec<ProviderAuth>)
    ensures
        auth_views(r@) == auth_registry_spec(),
{
    let mut r: Vec<ProviderAuth> = Vec::new();
    r.push(key_provider("deepseek", "DEEPSEEK_API_KEY", "https://platform.deepseek.com/api_keys", "https://api.deepseek.com", "deepseek-chat"));
    r.push(key_provider("zai", "ZAI_API_KEY", "https://z.ai/manage-apikey/apikey-list", "https://api.z.ai/api/coding/paas/v4", "glm-5.2"));
    r.push(key_provider("dashscope", "DASHSCOPE_API_KEY", "https://dashscope.console.aliyun.com/apiKey", "https://dashscope.aliyuncs.com/compatible-mode/v1", "qwen-plus"));
    r.push(key_provider("google", "GOOGLE_API_KEY", "https://aistudio.google.com/app/apikey", "https://generativelanguage.googleapis.com/v1beta/openai", "gemini-1.5-pro"));
    r.push(key_provider("moonshot", "MOONSHOT_API_KEY", "https://platform.moonshot.cn/console/api-keys", "https://api.moonshot.cn/v1", "moonshot-v1-auto"));
    r.push(
        ProviderAuth {
            name: "openai",
            method: AuthMethod::OAuth {
                client_id: "app_EMoamEEZ73f0CkXaXp7hrann",
                authorize_url: "https://auth.openai.com/oauth/authorize",
                token_url: "https://auth.openai.com/oauth/token",
                scope: "openid profile email offline_access",
            },
            base_url: "https://api.openai.com/v1",
            model: "gpt-4o",
        },
    );
    assert(auth_views(r@) =~= auth_registry_spec());
    r
}

/// The code of `c` lower-cased if it is an ASCII letter.
pub open spec fn ascii_lower(c: char) -> int {
    if 'A' <= c && c <= 'Z' {
        (c as u32) + 32
    } else {
        c as int
    }
}

/// Whether two strings are equal ignoring ASCII case, as
/// `str::eq_ignore_ascii_case` compares them.
pub open spec fn eq_ignore_ascii_case(a: Seq<char>, b: Seq<char>) -> bool {
    a.len() == b.len() && forall|i: int| 0 <= i < a.len() ==> ascii_lower(#[trigger] a[i]) == ascii_lower(b[i])
}

fn to_ascii_lower(c: char) -> (r: u32)
    ensures
        r == ascii_lower(c),
{
    if 'A' <= c && c <= 'Z' {
        (c as u32) + 32
    } else {
        c as u32
    }
}

/// Compares two strings ignoring ASCII case.
pub fn eq_ascii_case_insensitive(a: &str, b: &str) -> (r: bool)
    ensures
        r == eq_ignore_ascii_case(a@, b@),
{
    let va = chars_of(a);
    let vb = chars_of(b);
    if va.len() != vb.len() {
        return false;
    }
    let mut i: usize = 0;
    while i < va.len()
        invariant
            va@ == a@,
            vb@ == b@,
            va.len() == vb.len(),
            i <= va.len(),
            forall|j: int| 0 <= j < i ==> ascii_lower(#[trigger] va@[j]) == ascii_lower(vb@[j]),
        decreases va.len() - i,
    {
        if to_ascii_lower(va[i]) != to_ascii_lower(vb[i]) {
            return false;
        }
        i = i + 1;
    }
    true
}

/// The first entry of `ps` whose name equals `name` ignoring ASCII case.
pub open spec fn find_auth_in(ps: Seq<ProviderAuthView>, name: Seq<char>) -> Option<ProviderAuthView>
    decreases ps.len(),
{
    if ps.len() == 0 {
        None
    } else if eq_ignore_ascii_case(ps[0].name, name) {
        Some(ps[0])
    } else {
        find_auth_in(ps.drop_first(), name)
    }
}

/// Finds a provider's auth entry by name, ignoring ASCII case.
pub fn find_provider_auth(name: &str) -> (r: Option<ProviderAuth>)
    ensures
        match r {
            Some(p) => find_auth_in(auth_registry_spec(), name@) == Some(p@),
            None => find_auth_in(auth_registry_spec(), name@) is None,
        },
{
    let reg = auth_registry();
    let ghost all = auth_views(reg@);
    let mut i: usize = 0;
    assert(all.skip(0) =~= all);
    while i < reg.len()
        invariant
            i <= reg@.len(),
            all == auth_views(reg@),
            all == auth_registry_spec(),
            find_auth_in(all, name@) == find_auth_in(all.skip(i as int), name@),
        decreases reg@.len() - i,
    {
        assert(all.skip(i as int).drop_first() =~= all.skip(i + 1));
        assert(all.skip(i as int)[0] == reg@[i as int]@);
        if eq_ascii_case_insensitive(reg[i].name, name) {
            return Some(reg[i]);
        }
        i = i + 1;
    }
    None
}

/// The interactive UI of the login flows. A UI may be scripted: then the
/// key it answers for a provider is known ([`AuthUi::scripted_key`]); by
/// default nothing is known of what the user enters.
pub trait AuthUi {
    /// Whether the keys this UI answers are known.
    open spec fn scripted(&self) -> bool {
        false
    }

    /// The key a scripted UI answers when asked for `provider_name`'s key
    /// with `signup_url`; `None` when it refuses.
    open spec fn scripted_key(&self, provider_name: Seq<char>, signup_url: Seq<char>) -> Option<Seq<char>> {
        None
    }

    /// Shows a provider selector and answers the chosen index.
    fn select_provider(&self, providers: &[ProviderAuth]) -> Option<usize>;

    /// Prompts for an API key.
    fn prompt_api_key(&self, provider_name: &str, signup_url: &str) -> (r: Result<String, PraxisError>)
        ensures
            self.scripted() ==> match self.scripted_key(provider_name@, signup_url@) {
                Some(k) => r matches Ok(key) && key@ == k,
                None => r is Err,
            },
    ;

    /// Opens the browser for OAuth and waits for the callback.
    fn oauth_flow(&self, url: &str) -> Result<(), PraxisError>;

    /// Shows a status message.
    fn show_status(&self, message: &str);

    /// Shows a success message.
    fn show_success(&self, message: &str);

    /// Shows an error message.
    fn show_error(&self, message: &str);
}

/// The HTTP config a provider gives with a key or token: its base URL and
/// default model.
pub fn auth_to_http_config(provider: &ProviderAuth, api_key: String) -> (r: HttpConfig)
    ensures
        r.base_url@ == provider@.base_url,
        r.model@ == provider@.model,
        r.api_key@ == api_key@,
{
    HttpConfig { base_url: string_of(provider.base_url), model: string_of(provider.model), api_key }
}

/// The sign-up URL of an API-key provider; an OAuth provider has none and
/// is refused.
pub fn api_key_signup(provider: &ProviderAuth) -> (r: Result<&'static str, PraxisError>)
    ensures
        match provider@.method {
            MethodView::ApiKey { signup_url, .. } => r matches Ok(u) && u@ == signup_url,
            MethodView::OAuth { .. } => r matches Err(e) && crate::backend::http::is_agent_failure(
                e,
                (provider@.name, "not an API-key provider"@),
            ),
        },
{
    match provider.method {
        AuthMethod::ApiKey { signup_url, .. } => Ok(signup_url),
        AuthMethod::OAuth { .. } => Err(PraxisError::agent_failure(provider.name, "not an API-key provider")),
    }
}

/// Runs the API-key login for a provider: checks that it takes a key,
/// prompts for one, then shows that it is being validated. Answers the
/// entered key and the config to validate it with.
pub fn run_api_key_flow(ui: &dyn AuthUi, provider: &ProviderAuth) -> (r: Result<(String, HttpConfig), PraxisError>)
    ensures
        provider@.method is OAuth ==> (r matches Err(e) && crate::backend::http::is_agent_failure(
            e,
            (provider@.name, "not an API-key provider"@),
        )),
        r matches Ok((key, conf)) ==> provider@.method is ApiKey && conf.base_url@ == provider@.base_url
            && conf.model@ == provider@.model && conf.api_key@ == key@,
        ui.scripted() ==> (provider@.method matches MethodView::ApiKey { signup_url, .. } ==> match ui.scripted_key(
            provider@.name,
            signup_url,
        ) {
            Some(k) => r matches Ok((key, _)) && key@ == k,
            None => r is Err,
        }),
{
    let signup = match api_key_signup(provider) {
        Ok(u) => u,
        Err(e) => {
            return Err(e);
        },
    };
    let key = match ui.prompt_api_key(provider.name, signup) {
        Ok(k) => k,
        Err(e) => {
            return Err(e);
        },
    };
    ui.show_status("Validating...");
    let config = auth_to_http_config(provider, key.clone());
    Ok((key, config))
}

} // verus!
