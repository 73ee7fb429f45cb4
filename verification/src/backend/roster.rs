//! The multi-provider roster: a registry of OpenAI-compatible provider
//! presets and a seeded random assignment that pairs critic personas with
//! authed providers.
//!
//! Model diversity improves cross-examination, so each critic persona is
//! given a provider drawn at random from the authed set. The draw is the
//! only thing left to chance: [`assign_roster`] states the roster for every
//! sequence of draws, [`random_roster`] makes the draws with any generator,
//! and [`seeded_roster`] makes those of a generator seeded with a given seed,
//! so that a seed reproduces its roster.

use crate::backend::http::HttpConfig;
use crate::error::PraxisError;
use crate::persona::{persona_views, Persona, PersonaView};
use crate::text::string_of;
use vstd::prelude::*;

verus! {

#[verifier::external_type_specification]
#[verifier::external_body]
pub struct ExStdRng(rand::rngs::StdRng);

/// The abstract content of a provider preset.
pub struct ProviderView {
    pub name: Seq<char>,
    pub base_url: Seq<char>,
    pub model: Seq<char>,
    pub key_env_var: Seq<char>,
}

/// A preset for an OpenAI-compatible provider: where to call, which model to
/// request, and which environment variable holds the API key.
#[derive(Debug)]
pub struct Provider {
    name: String,
    base_url: String,
    model: String,
    key_env_var: String,
}

impl View for Provider {
    type V = ProviderView;

    closed spec fn view(&self) -> ProviderView {
        ProviderView {
            name: self.name@,
            base_url: self.base_url@,
            model: self.model@,
            key_env_var: self.key_env_var@,
        }
    }
}

/// The abstract content of an HTTP config: base URL, model, API key.
pub struct ConfigView {
    pub base_url: Seq<char>,
    pub model: Seq<char>,
    pub api_key: Seq<char>,
}

/// The view of an HTTP config.
pub open spec fn config_view(c: HttpConfig) -> ConfigView {
    ConfigView { base_url: c.base_url@, model: c.model@, api_key: c.api_key@ }
}

/// The views of a sequence of HTTP configs.
pub open spec fn config_views(cs: Seq<HttpConfig>) -> Seq<ConfigView> {
    cs.map_values(|c: HttpConfig| config_view(c))
}

/// The views of a sequence of providers.
pub open spec fn provider_views(ps: Seq<Provider>) -> Seq<ProviderView> {
    ps.map_values(|p: Provider| p@)
}

/// A preset with its four fields.
pub open spec fn preset(name: Seq<char>, base_url: Seq<char>, model: Seq<char>, key_env_var: Seq<char>) -> ProviderView {
    ProviderView { name, base_url, model, key_env_var }
}

/// The built-in registry: DeepSeek, OpenAI, Moonshot, Alibaba, Z.ai and
/// Google, in that order.
pub open spec fn registry_spec() -> Seq<ProviderView> {
    seq![
        preset("deepseek"@, "https://api.deepseek.com/v1"@, "deepseek-chat"@, "DEEPSEEK_API_KEY"@),
        preset("openai"@, "https://api.openai.com/v1"@, "gpt-5.4"@, "OPENAI_API_KEY"@),
        preset("moonshot"@, "https://api.moonshot.cn/v1"@, "moonshot-v1-auto"@, "MOONSHOT_API_KEY"@),
        preset(
            "alibaba"@,
            "https://dashscope.aliyuncs.com/compatible-mode/v1"@,
            "qwen-plus"@,
            "DASHSCOPE_API_KEY"@,
        ),
        preset("zai"@, "https://api.z.ai/api/coding/paas/v4"@, "glm-5.2"@, "ZAI_API_KEY"@),
        preset(
            "google"@,
            "https://generativelanguage.googleapis.com/v1beta/openai"@,
            "gemini-1.5-pro"@,
            "GOOGLE_API_KEY"@,
        ),
    ]
}

impl Clone for Provider {
    fn clone(&self) -> (r: Self)
        ensures
            r@ == self@,
    {
        Provider {
            name: self.name.clone(),
            base_url: self.base_url.clone(),
            model: self.model.clone(),
            key_env_var: self.key_env_var.clone(),
        }
    }
}

impl Provider {
    /// Creates a provider preset with the given short name; the other fields
    /// start empty and are set with the `with_*` builders.
    pub fn new(name: &str) -> (r: Self)
        ensures
            r@ == preset(name@, Seq::empty(), Seq::empty(), Seq::empty()),
    {
        Provider { name: string_of(name), base_url: String::new(), model: String::new(), key_env_var: String::new() }
    }

    /// Sets the API base URL (without `/chat/completions`).
    pub fn with_base_url(self, base_url: &str) -> (r: Self)
        ensures
            r@ == (ProviderView { base_url: base_url@, ..self@ }),
    {
        Provider { base_url: string_of(base_url), ..self }
    }

    /// Sets the model to request.
    pub fn with_model(self, model: &str) -> (r: Self)
        ensures
            r@ == (ProviderView { model: model@, ..self@ }),
    {
        Provider { model: string_of(model), ..self }
    }

    /// Sets the name of the environment variable holding the API key.
    pub fn with_key_env_var(self, key_env_var: &str) -> (r: Self)
        ensures
            r@ == (ProviderView { key_env_var: key_env_var@, ..self@ }),
    {
        Provider { key_env_var: string_of(key_env_var), ..self }
    }

    /// The provider's short name (e.g. `deepseek`).
    pub fn name(&self) -> (r: &str)
        ensures
            r@ == self@.name,
    {
        self.name.as_str()
    }

    /// The API base URL.
    pub fn base_url(&self) -> (r: &str)
        ensures
            r@ == self@.base_url,
    {
        self.base_url.as_str()
    }

    /// The model to request.
    pub fn model(&self) -> (r: &str)
        ensures
            r@ == self@.model,
    {
        self.model.as_str()
    }

    /// The environment variable holding the API key.
    pub fn key_env_var(&self) -> (r: &str)
        ensures
            r@ == self@.key_env_var,
    {
        self.key_env_var.as_str()
    }

    /// The config this preset gives with the API key read from its
    /// environment variable: `None` when the variable is unset.
    pub fn config_with_key(&self, api_key: Option<String>) -> (r: Option<HttpConfig>)
        ensures
            match api_key {
                None => r is None,
                Some(k) => r matches Some(c) && config_view(c) == (ConfigView {
                    base_url: self@.base_url,
                    model: self@.model,
                    api_key: k@,
                }),
            },
    {
        match api_key {
            None => None,
            Some(k) => Some(HttpConfig { base_url: self.base_url.clone(), model: self.model.clone(), api_key: k }),
        }
    }

    /// The built-in registry of frontier OpenAI-compatible providers. Every
    /// entry has a non-empty base URL, model and key variable.
    pub fn registry() -> (r: Vec<Provider>)
        ensures
            provider_views(r@) == registry_spec(),
    {
        let mut r: Vec<Provider> = Vec::new();
        r.push(
            Provider::new("deepseek").with_base_url("https://api.deepseek.com/v1").with_model(
                "deepseek-chat",
            ).with_key_env_var("DEEPSEEK_API_KEY"),
        );
        r.push(
            Provider::new("openai").with_base_url("https://api.openai.com/v1").with_model(
                "gpt-5.4",
            ).with_key_env_var("OPENAI_API_KEY"),
        );
        r.push(
            Provider::new("moonshot").with_base_url("https://api.moonshot.cn/v1").with_model(
                "moonshot-v1-auto",
            ).with_key_env_var("MOONSHOT_API_KEY"),
        );
        r.push(
            Provider::new("alibaba").with_base_url(
                "https://dashscope.aliyuncs.com/compatible-mode/v1",
            ).with_model("qwen-plus").with_key_env_var("DASHSCOPE_API_KEY"),
        );
        r.push(
            Provider::new("zai").with_base_url("https://api.z.ai/api/coding/paas/v4").with_model(
                "glm-5.2",
            ).with_key_env_var("ZAI_API_KEY"),
        );
        r.push(
            Provider::new("google").with_base_url(
                "https://generativelanguage.googleapis.com/v1beta/openai",
            ).with_model("gemini-1.5-pro").with_key_env_var("GOOGLE_API_KEY"),
        );
        assert(provider_views(r@) =~= registry_spec());
        r
    }
}

/// Every registry entry is fully populated: a non-empty base URL, model and
/// key variable.
pub proof fn lemma_registry_populated()
    ensures
        forall|i: int|
            0 <= i < registry_spec().len() ==> {
                let p = #[trigger] registry_spec()[i];
                p.base_url.len() > 0 && p.model.len() > 0 && p.key_env_var.len() > 0
            },
{
    reveal_strlit("https://api.deepseek.com/v1");
    reveal_strlit("deepseek-chat");
    reveal_strlit("DEEPSEEK_API_KEY");
    reveal_strlit("https://api.openai.com/v1");
    reveal_strlit("gpt-5.4");
    reveal_strlit("OPENAI_API_KEY");
    reveal_strlit("https://api.moonshot.cn/v1");
    reveal_strlit("moonshot-v1-auto");
    reveal_strlit("MOONSHOT_API_KEY");
    reveal_strlit("https://dashscope.aliyuncs.com/compatible-mode/v1");
    reveal_strlit("qwen-plus");
    reveal_strlit("DASHSCOPE_API_KEY");
    reveal_strlit("https://api.z.ai/api/coding/paas/v4");
    reveal_strlit("glm-5.2");
    reveal_strlit("ZAI_API_KEY");
    reveal_strlit("https://generativelanguage.googleapis.com/v1beta/openai");
    reveal_strlit("gemini-1.5-pro");
    reveal_strlit("GOOGLE_API_KEY");
}

/// Draws an index uniformly from `0..n` with `Rng::random_range`. Which
/// index comes out depends on the generator's state, so the contract says
/// only that it is in range.
#[verifier::external_body]
fn random_index(rng: &mut rand::rngs::StdRng, n: usize) -> (r: usize)
    requires
        n > 0,
    ensures
        r < n,
{
    rand::Rng::random_range(rng, 0..n)
}

/// The `i`-th index (counting from 0) that `Rng::random_range(0..n)` draws
/// from a `StdRng` seeded with `seed` by `SeedableRng::seed_from_u64`, when
/// every earlier draw from it was also from `0..n`.
pub uninterp spec fn seeded_draw(seed: u64, n: usize, i: nat) -> usize;

/// The first `count` indices drawn from `0..n` by the generator seeded with
/// `seed`.
pub open spec fn seeded_picks(seed: u64, n: usize, count: nat) -> Seq<usize> {
    Seq::new(count, |i: int| seeded_draw(seed, n, i as nat))
}

/// A generator seeded with a known seed, drawing indices from `0..n`, with
/// a count of the draws made.
pub struct SeededDraws {
    rng: rand::rngs::StdRng,
    seed: Ghost<u64>,
    n: usize,
    taken: Ghost<nat>,
}

impl SeededDraws {
    /// The seed the generator was made with.
    pub closed spec fn seed(&self) -> u64 {
        self.seed@
    }

    /// The range `0..n` every draw is from.
    pub closed spec fn n(&self) -> usize {
        self.n
    }

    /// How many draws were made.
    pub closed spec fn taken(&self) -> nat {
        self.taken@
    }
}

/// A `StdRng` seeded with `seed` by `SeedableRng::seed_from_u64`, for draws
/// from `0..n`; no draw made yet.
#[verifier::external_body]
fn seeded_draws(seed: u64, n: usize) -> (r: SeededDraws)
    ensures
        r.seed() == seed,
        r.n() == n,
        r.taken() == 0,
{
    SeededDraws { rng: <rand::rngs::StdRng as rand::SeedableRng>::seed_from_u64(seed), seed: Ghost(seed), n, taken: Ghost(0) }
}

/// The next index `Rng::random_range(0..n)` draws. `StdRng` is ChaCha12
/// here (`rand_chacha`, documented deterministic and portable), and `usize`
/// ranges are sampled the same way on 32- and 64-bit targets, so the draw is
/// a function of the seed, `n` and the number of earlier draws:
/// [`seeded_draw`].
#[verifier::external_body]
fn next_draw(d: &mut SeededDraws) -> (r: usize)
    requires
        old(d).n() > 0,
    ensures
        r == seeded_draw(old(d).seed(), old(d).n(), old(d).taken()),
        r < old(d).n(),
        final(d).seed() == old(d).seed(),
        final(d).n() == old(d).n(),
        final(d).taken() == old(d).taken() + 1,
{
    rand::Rng::random_range(&mut d.rng, 0..d.n)
}

/// The roster for a sequence of draws: persona `i` with config `picks[i]`.
pub open spec fn roster_of(personas: Seq<PersonaView>, configs: Seq<ConfigView>, picks: Seq<usize>) -> Seq<(PersonaView, ConfigView)> {
    Seq::new(personas.len(), |i: int| (personas[i], configs[picks[i] as int]))
}

/// The views of a roster.
pub open spec fn roster_views(r: Seq<(Persona, HttpConfig)>) -> Seq<(PersonaView, ConfigView)> {
    r.map_values(|e: (Persona, HttpConfig)| (e.0@, config_view(e.1)))
}

/// Pairs persona `i` with config `picks[i]`, for every persona.
pub fn assign_roster(personas: &[Persona], configs: &[HttpConfig], picks: &[usize]) -> (r: Vec<(Persona, HttpConfig)>)
    requires
        picks@.len() == personas@.len(),
        forall|i: int| 0 <= i < picks@.len() ==> picks@[i] < configs@.len(),
    ensures
        roster_views(r@) == roster_of(persona_views(personas@), config_views(configs@), picks@),
{
    let ghost want = roster_of(persona_views(personas@), config_views(configs@), picks@);
    let mut r: Vec<(Persona, HttpConfig)> = Vec::new();
    let mut i: usize = 0;
    while i < personas.len()
        invariant
            i <= personas@.len(),
            picks@.len() == personas@.len(),
            forall|j: int| 0 <= j < picks@.len() ==> picks@[j] < configs@.len(),
            want == roster_of(persona_views(personas@), config_views(configs@), picks@),
            roster_views(r@) == want.take(i as int),
        decreases personas@.len() - i,
    {
        let p = personas[i].clone();
        let c = configs[picks[i]].clone();
        let ghost before = r@;
        r.push((p, c));
        assert(roster_views(r@) =~= roster_views(before).push((p@, config_view(c))));
        i = i + 1;
        assert(roster_views(r@) =~= want.take(i as int));
    }
    assert(want.take(i as int) =~= want);
    r
}

/// Builds a critic roster by giving each persona, in order, a config drawn
/// uniformly from `configs`. Empty when either input is empty. Two critics
/// may share a config.
pub fn random_roster(personas: &[Persona], configs: &[HttpConfig], rng: &mut rand::rngs::StdRng) -> (r: Vec<(Persona, HttpConfig)>)
    ensures
        configs@.len() == 0 || personas@.len() == 0 ==> r@.len() == 0,
        configs@.len() > 0 ==> exists|picks: Seq<usize>|
            #![trigger roster_of(persona_views(personas@), config_views(configs@), picks)]
            picks.len() == personas@.len() && (forall|i: int|
                0 <= i < picks.len() ==> picks[i] < configs@.len()) && roster_views(r@)
                == roster_of(persona_views(personas@), config_views(configs@), picks),
{
    if configs.len() == 0 || personas.len() == 0 {
        let r: Vec<(Persona, HttpConfig)> = Vec::new();
        proof {
            if configs@.len() > 0 {
                let picks = Seq::<usize>::empty();
                assert(roster_views(r@) =~= roster_of(persona_views(personas@), config_views(configs@), picks));
            }
        }
        return r;
    }
    let mut picks: Vec<usize> = Vec::new();
    let mut i: usize = 0;
    while i < personas.len()
        invariant
            i <= personas@.len(),
            configs@.len() > 0,
            picks@.len() == i,
            forall|j: int| 0 <= j < picks@.len() ==> picks@[j] < configs@.len(),
        decreases personas@.len() - i,
    {
        let k = random_index(rng, configs.len());
        picks.push(k);
        i = i + 1;
    }
    assign_roster(personas, configs, picks.as_slice())
}

/// The roster `random_roster` draws with a generator seeded with `seed`:
/// persona `i` gets the config of the `i`-th seeded draw from
/// `0..configs.len()`. Empty when either input is empty.
pub fn seeded_roster(personas: &[Persona], configs: &[HttpConfig], seed: u64) -> (r: Vec<(Persona, HttpConfig)>)
    ensures
        configs@.len() == 0 || personas@.len() == 0 ==> r@.len() == 0,
        configs@.len() > 0 ==> roster_views(r@) == roster_of(
            persona_views(personas@),
            config_views(configs@),
            seeded_picks(seed, configs@.len() as usize, personas@.len()),
        ),
        r@.len() == if configs@.len() == 0 { 0 } else { personas@.len() },
        configs@.len() > 0 ==> forall|i: int|
            0 <= i < personas@.len() ==> #[trigger] seeded_picks(seed, configs@.len() as usize, personas@.len())[i]
                < configs@.len(),
{
    if configs.len() == 0 || personas.len() == 0 {
        let r: Vec<(Persona, HttpConfig)> = Vec::new();
        proof {
            if configs@.len() > 0 {
                assert(roster_views(r@) =~= roster_of(
                    persona_views(personas@),
                    config_views(configs@),
                    seeded_picks(seed, configs@.len() as usize, personas@.len()),
                ));
            }
        }
        return r;
    }
    let n = configs.len();
    let mut draws = seeded_draws(seed, n);
    let mut picks: Vec<usize> = Vec::new();
    let mut i: usize = 0;
    while i < personas.len()
        invariant
            i <= personas@.len(),
            n == configs@.len(),
            n > 0,
            draws.seed() == seed,
            draws.n() == n,
            draws.taken() == i,
            picks@ == seeded_picks(seed, n, i as nat),
            forall|j: int| 0 <= j < picks@.len() ==> picks@[j] < configs@.len(),
        decreases personas@.len() - i,
    {
        let k = next_draw(&mut draws);
        let ghost before = picks@;
        picks.push(k);
        i = i + 1;
        assert(picks@ =~= seeded_picks(seed, n, i as nat));
    }
    let r = assign_roster(personas, configs, picks.as_slice());
    assert(roster_views(r@).len() == r@.len());
    assert(picks@ == seeded_picks(seed, configs@.len() as usize, personas@.len()));
    r
}

/// The names of a sequence of providers.
pub open spec fn provider_names(ps: Seq<ProviderView>) -> Seq<Seq<char>> {
    ps.map_values(|p: ProviderView| p.name)
}

/// Builds a roster from the authed `configs` with a generator seeded from
/// `seed` ([`seeded_roster`]). Fails, naming every provider tried, when no
/// provider is authed.
pub fn roster_from_configs(personas: &[Persona], providers: &[Provider], configs: &[HttpConfig], seed: u64) -> (r: Result<Vec<(Persona, HttpConfig)>, PraxisError>)
    ensures
        configs@.len() == 0 <==> r is Err,
        match r {
            Err(e) => e matches PraxisError::NoAuthedProviders(tried) && crate::text::views(tried@)
                == provider_names(provider_views(providers@)),
            Ok(roster) => roster@.len() == personas@.len() && roster_views(roster@) == roster_of(
                persona_views(personas@),
                config_views(configs@),
                seeded_picks(seed, configs@.len() as usize, personas@.len()),
            ),
        },
{
    if configs.len() == 0 {
        let mut names: Vec<String> = Vec::new();
        let mut i: usize = 0;
        while i < providers.len()
            invariant
                i <= providers@.len(),
                crate::text::views(names@) == provider_names(provider_views(providers@)).take(i as int),
            decreases providers@.len() - i,
        {
            let ghost before = names@;
            let n = string_of(providers[i].name());
            names.push(n);
            assert(crate::text::views(names@) =~= crate::text::views(before).push(n@));
            i = i + 1;
            assert(crate::text::views(names@) =~= provider_names(provider_views(providers@)).take(i as int));
        }
        assert(provider_names(provider_views(providers@)).take(i as int) =~= provider_names(provider_views(providers@)));
        return Err(PraxisError::no_authed_providers(names));
    }
    Ok(seeded_roster(personas, configs, seed))
}

} // verus!
