//! Agent-facing self-description: [`Capabilities`] and [`Plan`].
//!
//! These back the `capabilities` command and `critique --dry-run`, so that
//! an AI agent can learn what the tool can do, and what a run would do,
//! without a network call.

use crate::backend::credentials::{Credentials, keys};
use crate::backend::http::HttpConfig;
use crate::backend::roster::{
    ConfigView, Provider, ProviderView, config_view, config_views, provider_views,
    registry_spec, roster_of, roster_views,
};
use crate::error::exit_codes_map;
use crate::persona::{persona_views, Persona, PersonaView};
use crate::text::{str_eq, string_of, views};
use std::collections::BTreeMap;
use vstd::prelude::*;

verus! {

/// The version this library reports.
pub const VERSION: &'static str = "0.3.0";

/// Info about one provider, as reported by [`Capabilities`].
#[derive(Debug)]
pub struct ProviderInfo {
    /// The provider's short name (e.g. `deepseek`).
    pub name: String,
    /// The model this provider is configured to use.
    pub model: String,
    /// Whether this provider is currently authed.
    pub authed: bool,
}

/// The abstract content of a provider info: name, model, authed.
pub open spec fn info_view(p: ProviderInfo) -> (Seq<char>, Seq<char>, bool) {
    (p.name@, p.model@, p.authed)
}

/// The views of provider infos.
pub open spec fn info_views(ps: Seq<ProviderInfo>) -> Seq<(Seq<char>, Seq<char>, bool)> {
    ps.map_values(|p: ProviderInfo| info_view(p))
}

/// The self-description of this tool for AI agents.
#[derive(Debug)]
pub struct Capabilities {
    /// The library version.
    pub version: String,
    /// The subcommands the CLI exposes.
    pub subcommands: Vec<String>,
    /// The output formats the report supports.
    pub output_formats: Vec<String>,
    /// The topologies the runner supports.
    pub topologies: Vec<String>,
    /// The provider registry with each provider's authed state.
    pub providers: Vec<ProviderInfo>,
    /// The panel of critic personas in use.
    pub personas: Vec<Persona>,
    /// The available panel names (built-in and config-defined).
    pub panels: Vec<String>,
    /// The exit-code scheme (code → meaning).
    pub exit_codes: BTreeMap<u8, String>,
}

/// The registry as provider infos, none authed.
pub open spec fn registry_infos() -> Seq<(Seq<char>, Seq<char>, bool)> {
    registry_spec().map_values(|p: ProviderView| (p.name, p.model, false))
}

/// Whether some config has model `m`.
pub open spec fn has_model(cs: Seq<ConfigView>, m: Seq<char>) -> bool {
    exists|i: int| 0 <= i < cs.len() && (#[trigger] cs[i]).model == m
}

/// The registry infos with those authed whose model an authed config has.
pub open spec fn marked_infos(authed: Seq<ConfigView>) -> Seq<(Seq<char>, Seq<char>, bool)> {
    registry_spec().map_values(|p: ProviderView| (p.name, p.model, has_model(authed, p.model)))
}

/// The infos after appending, for each authed config in order whose model
/// no info has yet, a `custom` entry.
pub open spec fn with_customs(infos: Seq<(Seq<char>, Seq<char>, bool)>, authed: Seq<ConfigView>) -> Seq<(Seq<char>, Seq<char>, bool)>
    decreases authed.len(),
{
    if authed.len() == 0 {
        infos
    } else {
        let prev = with_customs(infos, authed.drop_last());
        let m = authed.last().model;
        if exists|i: int| 0 <= i < prev.len() && (#[trigger] prev[i]).1 == m {
            prev
        } else {
            prev.push(("custom"@, m, true))
        }
    }
}

impl Capabilities {
    /// Static capabilities: the registry with no provider authed and the
    /// fixed metadata.
    pub fn static_info() -> (r: Self)
        ensures
            r.version@ == VERSION@,
            views(r.subcommands@) == seq!["critique"@, "capabilities"@],
            views(r.output_formats@) == seq!["markdown"@, "json"@],
            views(r.topologies@) == seq!["parallel"@, "rounds"@],
            info_views(r.providers@) == registry_infos(),
            r.personas@.len() == 1,
            r.personas@[0]@ == crate::persona::archetype(0),
            views(r.panels@) == seq!["default"@, "duo"@, "panel"@],
            r.exit_codes@.dom().len() == crate::error::exit_codes_spec().len(),
            forall|i: int|
                0 <= i < crate::error::exit_codes_spec().len() ==> r.exit_codes@.contains_key(
                    #[trigger] crate::error::exit_codes_spec()[i].0,
                ) && r.exit_codes@[crate::error::exit_codes_spec()[i].0]@
                    == crate::error::exit_codes_spec()[i].1,
    {
        let registry = Provider::registry();
        let ghost reg = registry_spec();
        let mut providers: Vec<ProviderInfo> = Vec::new();
        let mut i: usize = 0;
        while i < registry.len()
            invariant
                i <= registry@.len(),
                provider_views(registry@) == reg,
                reg == registry_spec(),
                info_views(providers@) == registry_infos().take(i as int),
            decreases registry@.len() - i,
        {
            let ghost before = providers@;
            let info = ProviderInfo {
                name: string_of(registry[i].name()),
                model: string_of(registry[i].model()),
                authed: false,
            };
            providers.push(info);
            assert(info_views(providers@) =~= info_views(before).push(info_view(info)));
            i = i + 1;
            assert(info_views(providers@) =~= registry_infos().take(i as int));
        }
        assert(registry_infos().take(i as int) =~= registry_infos());
        let mut subcommands = Vec::new();
        subcommands.push(string_of("critique"));
        subcommands.push(string_of("capabilities"));
        let mut output_formats = Vec::new();
        output_formats.push(string_of("markdown"));
        output_formats.push(string_of("json"));
        let mut topologies = Vec::new();
        topologies.push(string_of("parallel"));
        topologies.push(string_of("rounds"));
        let mut panels = Vec::new();
        panels.push(string_of("default"));
        panels.push(string_of("duo"));
        panels.push(string_of("panel"));
        assert(views(subcommands@) =~= seq!["critique"@, "capabilities"@]);
        assert(views(output_formats@) =~= seq!["markdown"@, "json"@]);
        assert(views(topologies@) =~= seq!["parallel"@, "rounds"@]);
        assert(views(panels@) =~= seq!["default"@, "duo"@, "panel"@]);
        Capabilities {
            version: string_of(VERSION),
            subcommands,
            output_formats,
            topologies,
            providers,
            personas: Persona::default_panel(),
            panels,
            exit_codes: exit_codes_map(),
        }
    }

    /// Capabilities with the auth state of `authed`, the configs that are
    /// authed now: a registry provider is authed when an authed config has
    /// its model; an authed config whose model no provider has is reported
    /// as `custom`. The config's panels, when there is a config, follow the
    /// built-in panel names.
    pub fn with_current_auth(authed: &[HttpConfig], credentials: Option<&Credentials>) -> (r: Self)
        ensures
            info_views(r.providers@) == with_customs(marked_infos(config_views(authed@)), config_views(authed@)),
            views(r.panels@) == seq!["default"@, "duo"@, "panel"@] + match credentials {
                Some(c) => keys(c@.panels),
                None => Seq::empty(),
            },
            r.version@ == VERSION@,
            views(r.subcommands@) == seq!["critique"@, "capabilities"@],
            views(r.output_formats@) == seq!["markdown"@, "json"@],
            views(r.topologies@) == seq!["parallel"@, "rounds"@],
    {
        let caps = Capabilities::static_info();
        let ghost av = config_views(authed@);
        let ghost reg = registry_spec();
        let registry = Provider::registry();
        let mut providers: Vec<ProviderInfo> = Vec::new();
        let mut i: usize = 0;
        while i < registry.len()
            invariant
                i <= registry@.len(),
                provider_views(registry@) == reg,
                reg == registry_spec(),
                av == config_views(authed@),
                info_views(providers@) == marked_infos(av).take(i as int),
            decreases registry@.len() - i,
        {
            let ghost before = providers@;
            let p = &registry[i];
            let authed_now = model_in(authed, p.model());
            let info = ProviderInfo { name: string_of(p.name()), model: string_of(p.model()), authed: authed_now };
            providers.push(info);
            assert(info_views(providers@) =~= info_views(before).push(info_view(info)));
            i = i + 1;
            assert(info_views(providers@) =~= marked_infos(av).take(i as int));
        }
        assert(marked_infos(av).take(i as int) =~= marked_infos(av));
        let mut k: usize = 0;
        while k < authed.len()
            invariant
                k <= authed@.len(),
                av == config_views(authed@),
                info_views(providers@) == with_customs(marked_infos(av), av.take(k as int)),
            decreases authed@.len() - k,
        {
            let ghost before = providers@;
            assert(av.take(k + 1).drop_last() =~= av.take(k as int));
            let m = authed[k].model.as_str();
            if !info_has_model(&providers, m) {
                let info = ProviderInfo { name: string_of("custom"), model: string_of(m), authed: true };
                providers.push(info);
                assert(info_views(providers@) =~= info_views(before).push(info_view(info)));
            }
            k = k + 1;
        }
        assert(av.take(k as int) =~= av);
        let mut panels: Vec<String> = Vec::new();
        panels.push(string_of("default"));
        panels.push(string_of("duo"));
        panels.push(string_of("panel"));
        let ghost base = seq!["default"@, "duo"@, "panel"@];
        assert(views(panels@) =~= base);
        match credentials {
            Some(c) => {
                let ps = c.panels();
                let mut j: usize = 0;
                proof {
                    assert(keys(c@.panels) =~= crate::backend::credentials::names_of(ps@));
                }
                while j < ps.len()
                    invariant
                        j <= ps@.len(),
                        keys(c@.panels) == crate::backend::credentials::names_of(ps@),
                        views(panels@) == base + keys(c@.panels).take(j as int),
                    decreases ps@.len() - j,
                {
                    let ghost before = panels@;
                    let n = ps[j].0.clone();
                    panels.push(n);
                    assert(views(panels@) =~= views(before).push(n@));
                    j = j + 1;
                    assert(views(panels@) =~= base + keys(c@.panels).take(j as int));
                }
                assert(keys(c@.panels).take(j as int) =~= keys(c@.panels));
            },
            None => {
                assert(views(panels@) =~= base + Seq::<Seq<char>>::empty());
            },
        }
        Capabilities { providers, panels, ..caps }
    }
}

/// Whether some config of `cs` has model `m`.
fn model_in(cs: &[HttpConfig], m: &str) -> (r: bool)
    ensures
        r == has_model(config_views(cs@), m@),
{
    let mut i: usize = 0;
    while i < cs.len()
        invariant
            i <= cs@.len(),
            forall|j: int| 0 <= j < i ==> config_views(cs@)[j].model != m@,
        decreases cs@.len() - i,
    {
        if str_eq(cs[i].model.as_str(), m) {
            assert(config_views(cs@)[i as int].model == m@);
            return true;
        }
        i = i + 1;
    }
    false
}

/// Whether some info of `ps` has model `m`.
fn info_has_model(ps: &Vec<ProviderInfo>, m: &str) -> (r: bool)
    ensures
        r == exists|i: int| 0 <= i < info_views(ps@).len() && (#[trigger] info_views(ps@)[i]).1 == m@,
{
    let mut i: usize = 0;
    while i < ps.len()
        invariant
            i <= ps@.len(),
            forall|j: int| 0 <= j < i ==> info_views(ps@)[j].1 != m@,
        decreases ps@.len() - i,
    {
        if str_eq(ps[i].model.as_str(), m) {
            assert(info_views(ps@)[i as int].1 == m@);
            return true;
        }
        i = i + 1;
    }
    false
}

/// One slot of a [`Plan`] roster.
#[derive(Debug)]
pub struct PlanSlot {
    /// The persona backing this slot.
    pub persona: String,
    /// The provider name (or `custom`) backing this slot.
    pub provider: String,
    /// The model the provider will use.
    pub model: String,
}

/// A resolved plan for a run, as `critique --dry-run` reports it.
#[derive(Debug)]
pub struct Plan {
    /// The seed of the roster draw.
    pub seed: u64,
    /// The topology name.
    pub topology: String,
    /// One slot per critic persona.
    pub roster: Vec<PlanSlot>,
    /// How many critic calls the run will make.
    pub n_critic_calls: usize,
    /// How many summarizer calls the run will make.
    pub n_summarizer_calls: usize,
    /// The critic calls plus the summarizer call.
    pub estimated_total_calls: usize,
}

/// The registry provider a model belongs to (the last with that model),
/// else `custom`.
pub open spec fn provider_label(m: Seq<char>) -> Seq<char> {
    label_in(registry_spec(), m)
}

/// The name of the last preset of `reg` with model `m`, else `custom`.
pub open spec fn label_in(reg: Seq<ProviderView>, m: Seq<char>) -> Seq<char>
    decreases reg.len(),
{
    if reg.len() == 0 {
        "custom"@
    } else if reg.last().model == m {
        reg.last().name
    } else {
        label_in(reg.drop_last(), m)
    }
}

/// The slot of one roster entry: persona name, provider label, model.
pub open spec fn slot_of(e: (PersonaView, ConfigView)) -> (Seq<char>, Seq<char>, Seq<char>) {
    (e.0.name, provider_label(e.1.model), e.1.model)
}

/// The views of plan slots.
pub open spec fn slot_views(ss: Seq<PlanSlot>) -> Seq<(Seq<char>, Seq<char>, Seq<char>)> {
    ss.map_values(|s: PlanSlot| (s.persona@, s.provider@, s.model@))
}

/// The provider label of a model.
fn label_of(reg: &Vec<Provider>, m: &str) -> (r: String)
    requires
        provider_views(reg@) == registry_spec(),
    ensures
        r@ == provider_label(m@),
{
    let ghost rv = provider_views(reg@);
    let mut i: usize = reg.len();
    assert(rv.take(i as int) =~= rv);
    while i > 0
        invariant
            i <= reg@.len(),
            rv == provider_views(reg@),
            rv == registry_spec(),
            label_in(rv, m@) == label_in(rv.take(i as int), m@),
        decreases i,
    {
        assert(rv.take(i as int).drop_last() =~= rv.take(i - 1));
        assert(rv.take(i as int).last() == rv[i - 1]);
        assert(rv[i - 1] == reg@[i - 1]@);
        if str_eq(reg[i - 1].model(), m) {
            return string_of(reg[i - 1].name());
        }
        i = i - 1;
    }
    proof {
        reveal_strlit("custom");
    }
    string_of("custom")
}

impl Plan {
    /// Builds a plan for a parallel-topology run: the roster a run with
    /// `seed` draws ([`seeded_roster`](crate::backend::roster::seeded_roster),
    /// no network call), each slot labelled
    /// with the registry provider of its model (else `custom`). One critic
    /// call per slot and one summarizer call.
    pub fn for_parallel(personas: &[Persona], configs: &[HttpConfig], seed: u64) -> (r: Self)
        requires
            personas@.len() < usize::MAX,
        ensures
            r.seed == seed,
            r.topology@ == "parallel"@,
            r.n_critic_calls == r.roster@.len(),
            r.n_summarizer_calls == 1,
            r.estimated_total_calls == r.roster@.len() + 1,
            configs@.len() == 0 ==> r.roster@.len() == 0,
            configs@.len() > 0 ==> slot_views(r.roster@) == roster_of(
                persona_views(personas@),
                config_views(configs@),
                crate::backend::roster::seeded_picks(seed, configs@.len() as usize, personas@.len()),
            ).map_values(|e: (PersonaView, ConfigView)| slot_of(e)),
    {
        let registry = Provider::registry();
        let roster = crate::backend::roster::seeded_roster(personas, configs, seed);
        let ghost rv = roster_views(roster@);
        let mut slots: Vec<PlanSlot> = Vec::new();
        let mut i: usize = 0;
        while i < roster.len()
            invariant
                i <= roster@.len(),
                rv == roster_views(roster@),
                provider_views(registry@) == registry_spec(),
                slot_views(slots@) == rv.map_values(|e: (PersonaView, ConfigView)| slot_of(e)).take(i as int),
            decreases roster@.len() - i,
        {
            let ghost before = slots@;
            let (p, c) = (&roster[i].0, &roster[i].1);
            let slot = PlanSlot {
                persona: string_of(p.name()),
                provider: label_of(&registry, c.model.as_str()),
                model: c.model.clone(),
            };
            slots.push(slot);
            assert(slot_views(slots@) =~= slot_views(before).push((slot.persona@, slot.provider@, slot.model@)));
            i = i + 1;
            assert(slot_views(slots@) =~= rv.map_values(|e: (PersonaView, ConfigView)| slot_of(e)).take(i as int));
        }
        assert(rv.map_values(|e: (PersonaView, ConfigView)| slot_of(e)).take(i as int) =~= rv.map_values(|e: (PersonaView, ConfigView)| slot_of(e)));
        let n = slots.len();
        assert(roster@.len() == 0 || roster@.len() == personas@.len());
        Plan {
            seed,
            topology: string_of("parallel"),
            roster: slots,
            n_critic_calls: n,
            n_summarizer_calls: 1,
            estimated_total_calls: n + 1,
        }
    }
}

} // verus!
