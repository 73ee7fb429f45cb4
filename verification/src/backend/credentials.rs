//! The credentials config: provider name → API key and model / base URL
//! overrides, user-defined panels, and excluded models; and the resolution
//! of the effective HTTP configs from it.
//!
//! Resolution precedence, per registry provider: OAuth access token >
//! keyring snapshot > environment snapshot > config `api_key` (a provider is
//! authed iff a key resolves); `model` / `base_url`: config override >
//! registry default. A config section that names no registry provider is a
//! custom provider and must give a key, a model and a base URL.

use crate::backend::http::HttpConfig;
use crate::backend::roster::{ConfigView, Provider, ProviderView, config_view, config_views, provider_views};
use crate::error::PraxisError;
use crate::persona::{clone_opt, opt_view, Persona, PersonaView};
use crate::text::{
    chars_of, decimal, decimal_string, push_char, push_str, str_eq, string_of, to_uppercase,
    uppercase, views,
};
use vstd::prelude::*;

verus! {

/// The abstract content of a provider override block.
pub struct OverrideView {
    pub api_key: Option<Seq<char>>,
    pub model: Option<Seq<char>>,
    pub base_url: Option<Seq<char>>,
    pub oauth_access: Option<Seq<char>>,
    pub oauth_refresh: Option<Seq<char>>,
    pub oauth_expires: Option<u64>,
}

/// A per-provider override block of the config file. Every field is
/// optional here; resolution decides which are required.
#[derive(Debug)]
pub struct ProviderOverride {
    /// The API key.
    pub api_key: Option<String>,
    /// Overrides the registry's default model.
    pub model: Option<String>,
    /// Overrides the registry's default base URL.
    pub base_url: Option<String>,
    /// An OAuth access token; used as the bearer token before any key.
    pub oauth_access: Option<String>,
    /// The OAuth refresh token.
    pub oauth_refresh: Option<String>,
    /// The OAuth access token's expiry, in milliseconds since the Unix epoch.
    pub oauth_expires: Option<u64>,
}

impl View for ProviderOverride {
    type V = OverrideView;

    open spec fn view(&self) -> OverrideView {
        OverrideView {
            api_key: opt_view(self.api_key),
            model: opt_view(self.model),
            base_url: opt_view(self.base_url),
            oauth_access: opt_view(self.oauth_access),
            oauth_refresh: opt_view(self.oauth_refresh),
            oauth_expires: self.oauth_expires,
        }
    }
}

/// The empty override block.
pub open spec fn empty_override() -> OverrideView {
    OverrideView {
        api_key: None,
        model: None,
        base_url: None,
        oauth_access: None,
        oauth_refresh: None,
        oauth_expires: None,
    }
}

impl Clone for ProviderOverride {
    fn clone(&self) -> (r: Self)
        ensures
            r@ == self@,
    {
        ProviderOverride {
            api_key: clone_opt(&self.api_key),
            model: clone_opt(&self.model),
            base_url: clone_opt(&self.base_url),
            oauth_access: clone_opt(&self.oauth_access),
            oauth_refresh: clone_opt(&self.oauth_refresh),
            oauth_expires: self.oauth_expires,
        }
    }
}

impl Default for ProviderOverride {
    fn default() -> (r: Self)
        ensures
            r@ == empty_override(),
    {
        ProviderOverride {
            api_key: None,
            model: None,
            base_url: None,
            oauth_access: None,
            oauth_refresh: None,
            oauth_expires: None,
        }
    }
}

/// One persona of a config-defined panel.
#[derive(Debug)]
pub struct PersonaSpec {
    pub name: String,
    pub framing: Option<String>,
    pub focus: Option<String>,
}

impl PersonaSpec {
    /// The persona this spec describes.
    pub fn to_persona(&self) -> (r: Persona)
        ensures
            r@ == (PersonaView {
                name: self.name@,
                framing: opt_view(self.framing),
                focus: opt_view(self.focus),
            }),
    {
        let mut p = Persona::new(self.name.as_str());
        match &self.framing {
            Some(f) => {
                p = p.with_framing(f.as_str());
            },
            None => {},
        }
        match &self.focus {
            Some(f) => {
                p = p.with_focus(f.as_str());
            },
            None => {},
        }
        p
    }
}

impl Clone for PersonaSpec {
    fn clone(&self) -> (r: Self)
        ensures
            r.name@ == self.name@,
            opt_view(r.framing) == opt_view(self.framing),
            opt_view(r.focus) == opt_view(self.focus),
    {
        PersonaSpec {
            name: self.name.clone(),
            framing: clone_opt(&self.framing),
            focus: clone_opt(&self.focus),
        }
    }
}

/// A user-defined panel of the config file: a named list of personas.
#[derive(Debug)]
pub struct PanelConfig {
    /// The personas in this panel.
    pub personas: Vec<PersonaSpec>,
}

impl Default for PanelConfig {
    fn default() -> (r: Self)
        ensures
            r.personas@.len() == 0,
    {
        PanelConfig { personas: Vec::new() }
    }
}

/// The names of a sequence of named entries.
pub open spec fn names_of<V>(entries: Seq<(String, V)>) -> Seq<Seq<char>> {
    entries.map_values(|e: (String, V)| e.0@)
}

/// The last position of `name` in `names`.
pub open spec fn position(names: Seq<Seq<char>>, name: Seq<char>) -> Option<int>
    decreases names.len(),
{
    if names.len() == 0 {
        None
    } else if names.last() == name {
        Some(names.len() - 1)
    } else {
        position(names.drop_last(), name)
    }
}

/// No name occurs twice.
pub open spec fn unique_names(names: Seq<Seq<char>>) -> bool {
    forall|i: int, j: int| 0 <= i < j < names.len() ==> names[i] != names[j]
}

/// `position` finds `name` where it occurs, and nowhere after.
pub proof fn lemma_position(names: Seq<Seq<char>>, name: Seq<char>)
    ensures
        match position(names, name) {
            Some(i) => 0 <= i < names.len() && names[i] == name && forall|j: int|
                i < j < names.len() ==> names[j] != name,
            None => forall|j: int| 0 <= j < names.len() ==> names[j] != name,
        },
    decreases names.len(),
{
    if names.len() > 0 && names.last() != name {
        let d = names.drop_last();
        lemma_position(d, name);
        assert forall|j: int| 0 <= j < d.len() implies #[trigger] names[j] == d[j] by {}
    }
}

/// The position of `name` among the names of `entries`, scanning from the
/// end.
pub fn find_entry<V>(entries: &[(String, V)], name: &str) -> (r: Option<usize>)
    ensures
        match r {
            Some(i) => i < entries@.len() && position(names_of(entries@), name@) == Some(i as int),
            None => position(names_of(entries@), name@) is None,
        },
{
    let ghost ns = names_of(entries@);
    let mut i: usize = entries.len();
    assert(ns.take(i as int) =~= ns);
    while i > 0
        invariant
            i <= entries@.len(),
            ns == names_of(entries@),
            position(ns, name@) == position(ns.take(i as int), name@),
        decreases i,
    {
        assert(ns.take(i as int).drop_last() =~= ns.take(i - 1));
        if str_eq(entries[i - 1].0.as_str(), name) {
            return Some(i - 1);
        }
        i = i - 1;
    }
    None
}

/// The value recorded for `name`.
pub open spec fn lookup<V>(entries: Seq<(Seq<char>, V)>, name: Seq<char>) -> Option<V> {
    match position(keys(entries), name) {
        Some(i) => Some(entries[i].1),
        None => None,
    }
}

/// The abstract content of a key snapshot: variable name → value.
pub open spec fn snapshot_view(kvs: Seq<(String, String)>) -> Seq<(Seq<char>, Seq<char>)> {
    kvs.map_values(|e: (String, String)| (e.0@, e.1@))
}

/// The abstract content of a persona spec.
pub open spec fn spec_view(p: PersonaSpec) -> PersonaView {
    PersonaView { name: p.name@, framing: opt_view(p.framing), focus: opt_view(p.focus) }
}

/// The abstract content of a panel config.
pub open spec fn panel_view(p: PanelConfig) -> Seq<PersonaView> {
    p.personas@.map_values(|s: PersonaSpec| spec_view(s))
}

/// The abstract content of a credentials config.
pub struct CredentialsView {
    /// The provider sections, in order, by name.
    pub providers: Seq<(Seq<char>, OverrideView)>,
    /// The user-defined panels, in order, by name.
    pub panels: Seq<(Seq<char>, Seq<PersonaView>)>,
    /// The model names excluded from the provider pool.
    pub exclude: Seq<Seq<char>>,
}

/// The parsed credentials config: provider sections, user-defined panels
/// and excluded models. No provider and no panel name occurs twice.
#[derive(Debug)]
pub struct Credentials {
    providers: Vec<(String, ProviderOverride)>,
    panels: Vec<(String, PanelConfig)>,
    exclude: Vec<String>,
}

/// The views of provider sections.
pub open spec fn sections_view(entries: Seq<(String, ProviderOverride)>) -> Seq<(Seq<char>, OverrideView)> {
    entries.map_values(|e: (String, ProviderOverride)| (e.0@, e.1@))
}

/// The views of named panels.
pub open spec fn panels_view(entries: Seq<(String, PanelConfig)>) -> Seq<(Seq<char>, Seq<PersonaView>)> {
    entries.map_values(|e: (String, PanelConfig)| (e.0@, panel_view(e.1)))
}

/// Sets `name` to `v`: in place when it is present, else appended.
pub open spec fn upsert<V>(entries: Seq<(Seq<char>, V)>, name: Seq<char>, v: V) -> Seq<(Seq<char>, V)> {
    match position(keys(entries), name) {
        Some(i) => entries.update(i, (name, v)),
        None => entries.push((name, v)),
    }
}

/// Removes `name`, if present.
pub open spec fn remove_name<V>(entries: Seq<(Seq<char>, V)>, name: Seq<char>) -> Seq<(Seq<char>, V)> {
    match position(keys(entries), name) {
        Some(i) => entries.remove(i),
        None => entries,
    }
}

/// The keys of abstract entries.
pub open spec fn keys<V>(entries: Seq<(Seq<char>, V)>) -> Seq<Seq<char>> {
    entries.map_values(|e: (Seq<char>, V)| e.0)
}

impl View for Credentials {
    type V = CredentialsView;

    closed spec fn view(&self) -> CredentialsView {
        CredentialsView {
            providers: sections_view(self.providers@),
            panels: panels_view(self.panels@),
            exclude: views(self.exclude@),
        }
    }
}

impl Credentials {
    /// No name occurs twice among the provider sections or among the panels.
    pub closed spec fn wf(&self) -> bool {
        unique_names(names_of(self.providers@)) && unique_names(names_of(self.panels@))
    }

    /// A well-formed config names each provider section and each panel once.
    pub proof fn lemma_wf_unique(&self)
        requires
            self.wf(),
        ensures
            unique_names(keys(self@.providers)),
            unique_names(keys(self@.panels)),
    {
        assert(keys(self@.providers) =~= names_of(self.providers@));
        assert(keys(self@.panels) =~= names_of(self.panels@));
    }

    /// An empty config: no sections, no panels, nothing excluded.
    pub fn new() -> (r: Self)
        ensures
            r.wf(),
            r@.providers.len() == 0,
            r@.panels.len() == 0,
            r@.exclude.len() == 0,
    {
        let r = Credentials { providers: Vec::new(), panels: Vec::new(), exclude: Vec::new() };
        assert(names_of(r.providers@) =~= Seq::<Seq<char>>::empty());
        assert(names_of(r.panels@) =~= Seq::<Seq<char>>::empty());
        r
    }

    /// The override block for `name`, if present.
    pub fn override_for(&self, name: &str) -> (r: Option<&ProviderOverride>)
        ensures
            match r {
                Some(o) => lookup(self@.providers, name@) == Some(o@),
                None => lookup(self@.providers, name@) is None,
            },
    {
        proof {
            assert(keys(self@.providers) =~= names_of(self.providers@));
        }
        match find_entry(self.providers.as_slice(), name) {
            Some(i) => Some(&self.providers[i].1),
            None => None,
        }
    }

    /// Sets or replaces the override block of a provider.
    pub fn set_override(&mut self, name: &str, override_: ProviderOverride)
        requires
            old(self).wf(),
        ensures
            final(self).wf(),
            final(self)@ == (CredentialsView {
                providers: upsert(old(self)@.providers, name@, override_@),
                ..old(self)@
            }),
    {
        proof {
            assert(keys(self@.providers) =~= names_of(self.providers@));
            lemma_position(names_of(self.providers@), name@);
        }
        let ghost before = self.providers@;
        let ov = override_;
        match find_entry(self.providers.as_slice(), name) {
            Some(i) => {
                let _old = self.providers.remove(i);
                self.providers.insert(i, (string_of(name), ov));
                proof {
                    assert(self.providers@ =~= before.update(i as int, self.providers@[i as int]));
                    assert(sections_view(self.providers@) =~= sections_view(before).update(
                        i as int,
                        (name@, ov@),
                    ));
                    assert(names_of(self.providers@) =~= names_of(before).update(i as int, name@));
                }
            },
            None => {
                self.providers.push((string_of(name), ov));
                proof {
                    assert(sections_view(self.providers@) =~= sections_view(before).push((name@, ov@)));
                    assert(names_of(self.providers@) =~= names_of(before).push(name@));
                }
            },
        }
    }

    /// Sets the model of a provider's override block, keeping its other
    /// fields; creates the block when absent.
    pub fn merge_model(&mut self, name: &str, model: &str)
        requires
            old(self).wf(),
        ensures
            final(self).wf(),
            final(self)@ == (CredentialsView {
                providers: upsert(
                    old(self)@.providers,
                    name@,
                    OverrideView {
                        model: Some(model@),
                        ..match lookup(old(self)@.providers, name@) {
                            Some(o) => o,
                            None => empty_override(),
                        }
                    },
                ),
                ..old(self)@
            }),
    {
        let mut ov = match self.override_for(name) {
            Some(o) => o.clone(),
            None => ProviderOverride::default(),
        };
        ov.model = Some(string_of(model));
        self.set_override(name, ov);
    }

    /// Removes the override block of a provider.
    pub fn remove_override(&mut self, name: &str)
        requires
            old(self).wf(),
        ensures
            final(self).wf(),
            final(self)@ == (CredentialsView {
                providers: remove_name(old(self)@.providers, name@),
                ..old(self)@
            }),
    {
        proof {
            assert(keys(self@.providers) =~= names_of(self.providers@));
        }
        let ghost before = self.providers@;
        match find_entry(self.providers.as_slice(), name) {
            Some(i) => {
                let _old = self.providers.remove(i);
                proof {
                    assert(sections_view(self.providers@) =~= sections_view(before).remove(i as int));
                    assert(names_of(self.providers@) =~= names_of(before).remove(i as int));
                }
            },
            None => {},
        }
    }

    /// Adds a user-defined panel, replacing one of the same name.
    pub fn set_panel(&mut self, name: &str, panel: PanelConfig)
        requires
            old(self).wf(),
        ensures
            final(self).wf(),
            final(self)@ == (CredentialsView {
                panels: upsert(old(self)@.panels, name@, panel_view(panel)),
                ..old(self)@
            }),
    {
        proof {
            assert(keys(self@.panels) =~= names_of(self.panels@));
            lemma_position(names_of(self.panels@), name@);
        }
        let ghost before = self.panels@;
        let ghost pv = panel_view(panel);
        match find_entry(self.panels.as_slice(), name) {
            Some(i) => {
                let _old = self.panels.remove(i);
                self.panels.insert(i, (string_of(name), panel));
                proof {
                    assert(panels_view(self.panels@) =~= panels_view(before).update(i as int, (name@, pv)));
                    assert(names_of(self.panels@) =~= names_of(before).update(i as int, name@));
                }
            },
            None => {
                self.panels.push((string_of(name), panel));
                proof {
                    assert(panels_view(self.panels@) =~= panels_view(before).push((name@, pv)));
                    assert(names_of(self.panels@) =~= names_of(before).push(name@));
                }
            },
        }
    }

    /// Adds a model name to exclude from the provider pool.
    pub fn push_exclude(&mut self, model: String)
        requires
            old(self).wf(),
        ensures
            final(self).wf(),
            final(self)@ == (CredentialsView { exclude: old(self)@.exclude.push(model@), ..old(self)@ }),
    {
        let ghost before = self.exclude@;
        self.exclude.push(model);
        assert(views(self.exclude@) =~= views(before).push(model@));
    }

    /// Whether the config has no provider sections.
    pub fn is_empty(&self) -> (r: bool)
        ensures
            r == (self@.providers.len() == 0),
    {
        self.providers.len() == 0
    }

    /// The provider sections, in order, as `(name, override)` pairs.
    pub fn iter(&self) -> (r: &[(String, ProviderOverride)])
        ensures
            sections_view(r@) == self@.providers,
    {
        self.providers.as_slice()
    }

    /// The user-defined panels, in order, as `(name, panel)` pairs.
    pub fn panels(&self) -> (r: &[(String, PanelConfig)])
        ensures
            panels_view(r@) == self@.panels,
    {
        self.panels.as_slice()
    }

    /// The model names to exclude from the provider pool.
    pub fn exclude(&self) -> (r: &[String])
        ensures
            views(r@) == self@.exclude,
    {
        self.exclude.as_slice()
    }
}

impl Default for Credentials {
    fn default() -> (r: Self)
        ensures
            r.wf(),
            r@.providers.len() == 0,
            r@.panels.len() == 0,
            r@.exclude.len() == 0,
    {
        Credentials::new()
    }
}

/// A `key = "value"` line, present only when the field is.
pub open spec fn toml_line(key: Seq<char>, v: Option<Seq<char>>) -> Seq<char> {
    match v {
        Some(x) => key + " = \""@ + x + "\"\n"@,
        None => Seq::empty(),
    }
}

/// The string-valued lines of an override block, in their fixed order.
pub open spec fn override_lines(o: OverrideView) -> Seq<char> {
    toml_line("api_key"@, o.api_key) + toml_line("model"@, o.model) + toml_line(
        "base_url"@,
        o.base_url,
    ) + toml_line("oauth_access"@, o.oauth_access) + toml_line("oauth_refresh"@, o.oauth_refresh)
}

/// The `oauth_expires = N` line, present only when the expiry is.
pub open spec fn expires_line(e: Option<u64>) -> Seq<char> {
    match e {
        Some(n) => "oauth_expires = "@ + decimal(n as nat) + "\n"@,
        None => Seq::empty(),
    }
}

/// The TOML section of one provider override block.
pub open spec fn provider_section(name: Seq<char>, o: OverrideView) -> Seq<char> {
    "["@ + name + "]\n"@ + override_lines(o) + expires_line(o.oauth_expires) + "\n"@
}

/// The sections of all provider blocks, in order.
pub open spec fn provider_sections(ps: Seq<(Seq<char>, OverrideView)>) -> Seq<char>
    decreases ps.len(),
{
    if ps.len() == 0 {
        Seq::empty()
    } else {
        provider_sections(ps.drop_last()) + provider_section(ps.last().0, ps.last().1)
    }
}

/// The TOML text of a config: its provider sections, or a comment line
/// when it has none. Panels, the retry table and excludes are not written.
pub open spec fn credentials_toml(c: CredentialsView) -> Seq<char> {
    if c.providers.len() == 0 {
        "# Proserpina credentials\n"@
    } else {
        provider_sections(c.providers)
    }
}

/// Writes `key = "value"` when the field is present.
fn write_toml_line(out: &mut String, key: &str, v: &Option<String>)
    ensures
        final(out)@ == old(out)@ + toml_line(key@, opt_view(*v)),
{
    match v {
        Some(x) => {
            push_str(out, key);
            push_str(out, " = \"");
            push_str(out, x.as_str());
            push_str(out, "\"\n");
        },
        None => {},
    }
    assert(out@ =~= old(out)@ + toml_line(key@, opt_view(*v)));
}

/// Writes the string-valued lines of an override block.
fn write_override_lines(out: &mut String, o: &ProviderOverride)
    ensures
        final(out)@ == old(out)@ + override_lines(o@),
{
    let ghost ov = o@;
    let ghost a0 = out@;
    write_toml_line(out, "api_key", &o.api_key);
    let ghost a1 = out@;
    write_toml_line(out, "model", &o.model);
    let ghost a2 = out@;
    write_toml_line(out, "base_url", &o.base_url);
    let ghost a3 = out@;
    write_toml_line(out, "oauth_access", &o.oauth_access);
    let ghost a4 = out@;
    write_toml_line(out, "oauth_refresh", &o.oauth_refresh);
    proof {
        let l1 = toml_line("api_key"@, ov.api_key);
        let l2 = toml_line("model"@, ov.model);
        let l3 = toml_line("base_url"@, ov.base_url);
        let l4 = toml_line("oauth_access"@, ov.oauth_access);
        let l5 = toml_line("oauth_refresh"@, ov.oauth_refresh);
        assert(a2 =~= a0 + (l1 + l2));
        assert(a4 =~= a0 + (l1 + l2 + l3 + l4));
        assert(out@ =~= a0 + (l1 + l2 + l3 + l4 + l5));
    }
}

/// Writes the expiry line when there is an expiry.
fn write_expires(out: &mut String, e: Option<u64>)
    ensures
        final(out)@ == old(out)@ + expires_line(e),
{
    match e {
        Some(n) => {
            push_str(out, "oauth_expires = ");
            push_str(out, decimal_string(n).as_str());
            push_str(out, "\n");
        },
        None => {},
    }
    assert(out@ =~= old(out)@ + expires_line(e));
}

/// Writes the section of one provider block.
fn write_section(out: &mut String, name: &str, o: &ProviderOverride)
    ensures
        final(out)@ == old(out)@ + provider_section(name@, o@),
{
    let ghost o0 = out@;
    push_str(out, "[");
    push_str(out, name);
    push_str(out, "]\n");
    write_override_lines(out, o);
    write_expires(out, o.oauth_expires);
    push_str(out, "\n");
    assert(out@ =~= o0 + provider_section(name@, o@));
}

impl Credentials {
    /// Serializes the provider sections back to TOML text (a comment line
    /// when there are none).
    pub fn to_toml_string(&self) -> (r: String)
        ensures
            r@ == credentials_toml(self@),
    {
        let ghost ps = self@.providers;
        let mut out = String::new();
        let mut i: usize = 0;
        while i < self.providers.len()
            invariant
                i <= self.providers@.len(),
                ps == sections_view(self.providers@),
                out@ == provider_sections(ps.take(i as int)),
            decreases self.providers@.len() - i,
        {
            write_section(&mut out, self.providers[i].0.as_str(), &self.providers[i].1);
            assert(ps.take(i + 1).drop_last() =~= ps.take(i as int));
            i = i + 1;
        }
        assert(ps.take(i as int) =~= ps);
        if self.providers.len() == 0 {
            return string_of("# Proserpina credentials\n");
        }
        out
    }
}

/// `s` with every `from` replaced by `to`.
pub open spec fn replace_char(s: Seq<char>, from: char, to: char) -> Seq<char> {
    s.map_values(|c: char| if c == from { to } else { c })
}

/// The conventional key variable of a custom provider: its name with `-`
/// as `_`, upper-cased, then `_API_KEY` (`my-llm` → `MY_LLM_API_KEY`).
pub open spec fn env_var_name(name: Seq<char>) -> Seq<char> {
    uppercase(replace_char(name, '-', '_')) + "_API_KEY"@
}

/// Derives the conventional key variable of a custom provider.
pub fn env_var_name_for(provider_name: &str) -> (r: String)
    ensures
        r@ == env_var_name(provider_name@),
{
    let chars = chars_of(provider_name);
    let mut replaced = String::new();
    let mut i: usize = 0;
    while i < chars.len()
        invariant
            i <= chars@.len(),
            chars@ == provider_name@,
            replaced@ == replace_char(chars@, '-', '_').take(i as int),
        decreases chars@.len() - i,
    {
        let c = chars[i];
        push_char(&mut replaced, if c == '-' { '_' } else { c });
        i = i + 1;
        assert(replaced@ =~= replace_char(chars@, '-', '_').take(i as int));
    }
    assert(replace_char(chars@, '-', '_').take(i as int) =~= replace_char(chars@, '-', '_'));
    let mut r = to_uppercase(replaced.as_str());
    push_str(&mut r, "_API_KEY");
    r
}

/// The key variable of a pi auth entry: `zai-coding-cn` stands for `zai`
/// and `openai-codex` for `openai`; then as [`env_var_name`].
pub open spec fn auth_entry_env_var(name: Seq<char>) -> Seq<char> {
    if name == "zai-coding-cn"@ {
        env_var_name("zai"@)
    } else if name == "openai-codex"@ {
        env_var_name("openai"@)
    } else {
        env_var_name(name)
    }
}

/// Maps a pi auth entry name to the key variable it stands for.
pub fn auth_entry_to_env_var(name: &str) -> (r: String)
    ensures
        r@ == auth_entry_env_var(name@),
{
    if str_eq(name, "zai-coding-cn") {
        env_var_name_for("zai")
    } else if str_eq(name, "openai-codex") {
        env_var_name_for("openai")
    } else {
        env_var_name_for(name)
    }
}

/// `s` up to its first `c`.
pub open spec fn before_char(s: Seq<char>, c: char) -> Seq<char> {
    s.take(crate::text::next_char(s, 0, c) as int)
}

/// `url` without an `https://` or `http://` scheme.
pub open spec fn strip_scheme(url: Seq<char>) -> Seq<char> {
    if url.len() >= 8 && url.take(8) == "https://"@ {
        url.skip(8)
    } else if url.len() >= 7 && url.take(7) == "http://"@ {
        url.skip(7)
    } else {
        url
    }
}

/// The host of a base URL: without the scheme, up to the first `:`, then up
/// to the first `/` (`https://api.deepseek.com/v1` → `api.deepseek.com`).
pub open spec fn host_of(url: Seq<char>) -> Seq<char> {
    before_char(before_char(strip_scheme(url), ':'), '/')
}

/// The part of `v` before its first `c`.
fn take_before(v: &Vec<char>, c: char) -> (r: Vec<char>)
    ensures
        r@ == before_char(v@, c),
{
    let e = crate::text::next_char_at(v, 0, c);
    proof {
        crate::text::lemma_next_char_bounds(v@, 0, c);
    }
    let r = crate::text::copy_range(v, 0, e);
    assert(r@ =~= v@.take(e as int));
    r
}

/// Extracts the host from a base URL, for telling providers apart.
pub fn extract_host(url: &str) -> (r: String)
    ensures
        r@ == host_of(url@),
{
    let v = chars_of(url);
    proof {
        reveal_strlit("https://");
        reveal_strlit("http://");
    }
    let stripped = if v.len() >= 8 && crate::text::range_eq_str(&v, 0, 8, "https://") {
        crate::text::copy_range(&v, 8, v.len())
    } else if v.len() >= 7 && crate::text::range_eq_str(&v, 0, 7, "http://") {
        crate::text::copy_range(&v, 7, v.len())
    } else {
        crate::text::copy_range(&v, 0, v.len())
    };
    assert(v@.subrange(0, 8) =~= v@.take(8) || v@.len() < 8);
    assert(v@.len() < 7 || v@.subrange(0, 7) =~= v@.take(7));
    assert(v@.len() < 8 || v@.subrange(8, v@.len() as int) =~= v@.skip(8));
    assert(v@.len() < 7 || v@.subrange(7, v@.len() as int) =~= v@.skip(7));
    assert(v@.subrange(0, v@.len() as int) =~= v@);
    assert(stripped@ == strip_scheme(url@));
    let no_port = take_before(&stripped, ':');
    let host = take_before(&no_port, '/');
    crate::text::string_from_chars(&host, 0, host.len())
}

/// `a`, or else `b`.
pub open spec fn or_else(a: Option<Seq<char>>, b: Option<Seq<char>>) -> Option<Seq<char>> {
    match a {
        Some(x) => Some(x),
        None => b,
    }
}

/// A field of an optional override block.
pub open spec fn ov_oauth(ov: Option<OverrideView>) -> Option<Seq<char>> {
    match ov {
        Some(o) => o.oauth_access,
        None => None,
    }
}

/// A field of an optional override block.
pub open spec fn ov_api_key(ov: Option<OverrideView>) -> Option<Seq<char>> {
    match ov {
        Some(o) => o.api_key,
        None => None,
    }
}

/// A field of an optional override block.
pub open spec fn ov_model(ov: Option<OverrideView>) -> Option<Seq<char>> {
    match ov {
        Some(o) => o.model,
        None => None,
    }
}

/// A field of an optional override block.
pub open spec fn ov_base_url(ov: Option<OverrideView>) -> Option<Seq<char>> {
    match ov {
        Some(o) => o.base_url,
        None => None,
    }
}

/// The key of a registry provider: the OAuth access token, else the
/// keyring entry, else the environment entry of its key variable, else the
/// config `api_key`.
pub open spec fn registry_key(
    p: ProviderView,
    ov: Option<OverrideView>,
    env: Seq<(Seq<char>, Seq<char>)>,
    kr: Seq<(Seq<char>, Seq<char>)>,
) -> Option<Seq<char>> {
    or_else(
        ov_oauth(ov),
        or_else(lookup(kr, p.key_env_var), or_else(lookup(env, p.key_env_var), ov_api_key(ov))),
    )
}

/// The config of a registry provider, when it is authed: the config's
/// model and base URL override the registry's.
pub open spec fn registry_config(
    p: ProviderView,
    ov: Option<OverrideView>,
    env: Seq<(Seq<char>, Seq<char>)>,
    kr: Seq<(Seq<char>, Seq<char>)>,
) -> Option<ConfigView> {
    match registry_key(p, ov, env, kr) {
        None => None,
        Some(k) => Some(
            ConfigView {
                base_url: match ov_base_url(ov) {
                    Some(u) => u,
                    None => p.base_url,
                },
                model: match ov_model(ov) {
                    Some(m) => m,
                    None => p.model,
                },
                api_key: k,
            },
        ),
    }
}

/// The configs of the authed registry providers, in registry order.
pub open spec fn registry_configs(
    reg: Seq<ProviderView>,
    provs: Seq<(Seq<char>, OverrideView)>,
    env: Seq<(Seq<char>, Seq<char>)>,
    kr: Seq<(Seq<char>, Seq<char>)>,
) -> Seq<ConfigView>
    decreases reg.len(),
{
    if reg.len() == 0 {
        Seq::empty()
    } else {
        registry_configs(reg.drop_last(), provs, env, kr) + match registry_config(
            reg.last(),
            lookup(provs, reg.last().name),
            env,
            kr,
        ) {
            Some(c) => seq![c],
            None => Seq::empty(),
        }
    }
}

/// The key of a custom provider: the keyring entry, else the environment
/// entry of its conventional key variable, else the config `api_key`.
pub open spec fn custom_key(
    name: Seq<char>,
    o: OverrideView,
    env: Seq<(Seq<char>, Seq<char>)>,
    kr: Seq<(Seq<char>, Seq<char>)>,
) -> Option<Seq<char>> {
    or_else(lookup(kr, env_var_name(name)), or_else(lookup(env, env_var_name(name)), o.api_key))
}

/// The names of the absent required fields of a custom provider.
pub open spec fn missing_fields(key: Option<Seq<char>>, model: Option<Seq<char>>, base_url: Option<Seq<char>>) -> Seq<Seq<char>> {
    (if key is None {
        seq!["api_key"@]
    } else {
        Seq::empty()
    }) + (if model is None {
        seq!["model"@]
    } else {
        Seq::empty()
    }) + (if base_url is None {
        seq!["base_url"@]
    } else {
        Seq::empty()
    })
}

/// The configs of the custom providers (sections naming no registry
/// provider), in order; the first incomplete one fails with its name and
/// missing fields.
pub open spec fn custom_configs(
    reg_names: Seq<Seq<char>>,
    provs: Seq<(Seq<char>, OverrideView)>,
    env: Seq<(Seq<char>, Seq<char>)>,
    kr: Seq<(Seq<char>, Seq<char>)>,
) -> Result<Seq<ConfigView>, (Seq<char>, Seq<Seq<char>>)>
    decreases provs.len(),
{
    if provs.len() == 0 {
        Ok(Seq::empty())
    } else {
        match custom_configs(reg_names, provs.drop_last(), env, kr) {
            Err(e) => Err(e),
            Ok(cs) => {
                let name = provs.last().0;
                let o = provs.last().1;
                if reg_names.contains(name) {
                    Ok(cs)
                } else {
                    let k = custom_key(name, o, env, kr);
                    let miss = missing_fields(k, o.model, o.base_url);
                    if miss.len() > 0 {
                        Err((name, miss))
                    } else {
                        Ok(
                            cs.push(
                                ConfigView {
                                    base_url: o.base_url.unwrap(),
                                    model: o.model.unwrap(),
                                    api_key: k.unwrap(),
                                },
                            ),
                        )
                    }
                }
            },
        }
    }
}

/// The names of registry presets.
pub open spec fn preset_names(reg: Seq<ProviderView>) -> Seq<Seq<char>> {
    reg.map_values(|p: ProviderView| p.name)
}

/// The effective configs: the authed registry providers, then the custom
/// providers; or the first incomplete custom provider.
pub open spec fn resolved_configs(
    reg: Seq<ProviderView>,
    c: CredentialsView,
    env: Seq<(Seq<char>, Seq<char>)>,
    kr: Seq<(Seq<char>, Seq<char>)>,
) -> Result<Seq<ConfigView>, (Seq<char>, Seq<Seq<char>>)> {
    match custom_configs(preset_names(reg), c.providers, env, kr) {
        Err(e) => Err(e),
        Ok(cs) => Ok(registry_configs(reg, c.providers, env, kr) + cs),
    }
}

/// A failure on a prefix of the sections is the failure of all of them.
proof fn lemma_custom_prefix_err(
    reg_names: Seq<Seq<char>>,
    provs: Seq<(Seq<char>, OverrideView)>,
    env: Seq<(Seq<char>, Seq<char>)>,
    kr: Seq<(Seq<char>, Seq<char>)>,
    j: int,
)
    requires
        0 <= j <= provs.len(),
        custom_configs(reg_names, provs.take(j), env, kr) is Err,
    ensures
        custom_configs(reg_names, provs, env, kr) == custom_configs(reg_names, provs.take(j), env, kr),
    decreases provs.len(),
{
    if j == provs.len() {
        assert(provs.take(j) =~= provs);
    } else {
        assert(provs.drop_last().take(j) =~= provs.take(j));
        lemma_custom_prefix_err(reg_names, provs.drop_last(), env, kr, j);
    }
}

/// The value recorded for `k` in a key snapshot.
fn snapshot_get(kvs: &[(String, String)], k: &str) -> (r: Option<String>)
    ensures
        opt_view(r) == lookup(snapshot_view(kvs@), k@),
{
    proof {
        assert(keys(snapshot_view(kvs@)) =~= names_of(kvs@));
    }
    match find_entry(kvs, k) {
        Some(i) => Some(kvs[i].1.clone()),
        None => None,
    }
}

/// `a` if present, else `b`.
fn first_of(a: Option<String>, b: Option<String>) -> (r: Option<String>)
    ensures
        opt_view(r) == or_else(opt_view(a), opt_view(b)),
{
    match a {
        Some(x) => Some(x),
        None => b,
    }
}

/// The override block of `name`, copied.
fn override_copy(c: &Credentials, name: &str) -> (r: Option<ProviderOverride>)
    ensures
        match r {
            Some(o) => lookup(c@.providers, name@) == Some(o@),
            None => lookup(c@.providers, name@) is None,
        },
{
    match c.override_for(name) {
        Some(o) => Some(o.clone()),
        None => None,
    }
}

/// The views of an optional override block.
pub open spec fn opt_override_view(o: Option<ProviderOverride>) -> Option<OverrideView> {
    match o {
        Some(x) => Some(x@),
        None => None,
    }
}

/// The config of one registry provider, when it is authed.
fn resolve_registry_provider(p: &Provider, c: &Credentials, env: &[(String, String)], kr: &[(String, String)]) -> (r: Option<HttpConfig>)
    ensures
        match r {
            Some(cfg) => registry_config(p@, lookup(c@.providers, p@.name), snapshot_view(env@), snapshot_view(kr@)) == Some(config_view(cfg)),
            None => registry_config(p@, lookup(c@.providers, p@.name), snapshot_view(env@), snapshot_view(kr@)) is None,
        },
{
    let ov = override_copy(c, p.name());
    let ghost ovv = opt_override_view(ov);
    assert(ovv == lookup(c@.providers, p@.name));
    let (oauth, api, model, base) = match ov {
        Some(o) => (o.oauth_access, o.api_key, o.model, o.base_url),
        None => (None, None, None, None),
    };
    let key = first_of(
        oauth,
        first_of(snapshot_get(kr, p.key_env_var()), first_of(snapshot_get(env, p.key_env_var()), api)),
    );
    match key {
        None => None,
        Some(k) => {
            let base_url = match base {
                Some(u) => u,
                None => string_of(p.base_url()),
            };
            let model = match model {
                Some(m) => m,
                None => string_of(p.model()),
            };
            Some(HttpConfig { base_url, model, api_key: k })
        },
    }
}

/// Whether `name` is one of the presets' names.
fn is_preset_name(reg: &[Provider], name: &str) -> (r: bool)
    ensures
        r == preset_names(provider_views(reg@)).contains(name@),
{
    let ghost ns = preset_names(provider_views(reg@));
    let mut i: usize = 0;
    while i < reg.len()
        invariant
            i <= reg@.len(),
            ns == preset_names(provider_views(reg@)),
            forall|j: int| 0 <= j < i ==> ns[j] != name@,
        decreases reg@.len() - i,
    {
        if str_eq(reg[i].name(), name) {
            assert(ns[i as int] == name@);
            return true;
        }
        i = i + 1;
    }
    false
}

/// Resolves the effective HTTP configs from a registry, a credentials
/// config, and snapshots of the keyring and the environment (each a list of
/// `(variable, value)` pairs; a later pair for the same variable wins).
///
/// Registry providers come first, in registry order, each when authed; the
/// custom providers follow in config order. Fails with
/// [`PraxisError::IncompleteCustomProvider`] for the first custom provider
/// without a key, a model or a base URL.
pub fn resolve_configs_with_keyring(
    registry: &[Provider],
    credentials: &Credentials,
    env_keys: &[(String, String)],
    keyring_keys: &[(String, String)],
) -> (r: Result<Vec<HttpConfig>, PraxisError>)
    ensures
        match (r, resolved_configs(provider_views(registry@), credentials@, snapshot_view(env_keys@), snapshot_view(keyring_keys@))) {
            (Ok(cs), Ok(v)) => config_views(cs@) == v,
            (Err(e), Err(f)) => e matches PraxisError::IncompleteCustomProvider { name, missing }
                && name@ == f.0 && views(missing@) == f.1,
            _ => false,
        },
{
    let ghost reg = provider_views(registry@);
    let ghost provs = credentials@.providers;
    let ghost env = snapshot_view(env_keys@);
    let ghost kr = snapshot_view(keyring_keys@);
    let mut out: Vec<HttpConfig> = Vec::new();
    let mut i: usize = 0;
    while i < registry.len()
        invariant
            i <= registry@.len(),
            reg == provider_views(registry@),
            provs == credentials@.providers,
            env == snapshot_view(env_keys@),
            kr == snapshot_view(keyring_keys@),
            config_views(out@) == registry_configs(reg.take(i as int), provs, env, kr),
        decreases registry@.len() - i,
    {
        let ghost before = out@;
        assert(reg.take(i + 1).drop_last() =~= reg.take(i as int));
        match resolve_registry_provider(&registry[i], credentials, env_keys, keyring_keys) {
            Some(cfg) => {
                out.push(cfg);
                assert(config_views(out@) =~= config_views(before).push(config_view(cfg)));
            },
            None => {},
        }
        assert(config_views(out@) =~= registry_configs(reg.take(i + 1), provs, env, kr));
        i = i + 1;
    }
    assert(reg.take(i as int) =~= reg);
    let ghost reg_part = config_views(out@);
    let sections = credentials.iter();
    let mut j: usize = 0;
    while j < sections.len()
        invariant
            j <= sections@.len(),
            reg == provider_views(registry@),
            provs == credentials@.providers,
            provs == sections_view(sections@),
            env == snapshot_view(env_keys@),
            kr == snapshot_view(keyring_keys@),
            reg_part == registry_configs(reg, provs, env, kr),
            custom_configs(preset_names(reg), provs.take(j as int), env, kr) matches Ok(cs)
                && config_views(out@) == reg_part + cs,
        decreases sections@.len() - j,
    {
        let ghost before = out@;
        assert(provs.take(j + 1).drop_last() =~= provs.take(j as int));
        let name = sections[j].0.as_str();
        let o = &sections[j].1;
        if is_preset_name(registry, name) {
        } else {
            let var = env_var_name_for(name);
            let key = first_of(
                snapshot_get(keyring_keys, var.as_str()),
                first_of(snapshot_get(env_keys, var.as_str()), clone_opt(&o.api_key)),
            );
            let mut missing: Vec<String> = Vec::new();
            if key.is_none() {
                missing.push(string_of("api_key"));
            }
            if o.model.is_none() {
                missing.push(string_of("model"));
            }
            if o.base_url.is_none() {
                missing.push(string_of("base_url"));
            }
            assert(views(missing@) =~= missing_fields(opt_view(key), o@.model, o@.base_url));
            if missing.len() > 0 {
                proof {
                    assert(custom_configs(preset_names(reg), provs.take(j + 1), env, kr) == Err::<Seq<ConfigView>, (Seq<char>, Seq<Seq<char>>)>((name@, views(missing@))));
                    lemma_custom_prefix_err(preset_names(reg), provs, env, kr, j + 1);
                }
                return Err(PraxisError::incomplete_custom_provider(name, missing));
            }
            let cfg = HttpConfig {
                base_url: clone_opt(&o.base_url).unwrap(),
                model: clone_opt(&o.model).unwrap(),
                api_key: key.unwrap(),
            };
            out.push(cfg);
            assert(config_views(out@) =~= config_views(before).push(config_view(cfg)));
        }
        j = j + 1;
    }
    assert(provs.take(j as int) =~= provs);
    Ok(out)
}

/// [`resolve_configs_with_keyring`] with an empty keyring snapshot.
pub fn resolve_configs(registry: &[Provider], credentials: &Credentials, env_keys: &[(String, String)]) -> (r: Result<Vec<HttpConfig>, PraxisError>)
    ensures
        match (r, resolved_configs(provider_views(registry@), credentials@, snapshot_view(env_keys@), Seq::empty())) {
            (Ok(cs), Ok(v)) => config_views(cs@) == v,
            (Err(e), Err(f)) => e matches PraxisError::IncompleteCustomProvider { name, missing }
                && name@ == f.0 && views(missing@) == f.1,
            _ => false,
        },
{
    let empty: Vec<(String, String)> = Vec::new();
    assert(snapshot_view(empty@) =~= Seq::<(Seq<char>, Seq<char>)>::empty());
    resolve_configs_with_keyring(registry, credentials, env_keys, empty.as_slice())
}

/// The configs whose host is not among `hosts`, in order.
pub open spec fn drop_hosts(cs: Seq<ConfigView>, hosts: Seq<Seq<char>>) -> Seq<ConfigView>
    decreases cs.len(),
{
    if cs.len() == 0 {
        Seq::empty()
    } else {
        drop_hosts(cs.drop_last(), hosts) + if hosts.contains(host_of(cs.last().base_url)) {
            Seq::empty()
        } else {
            seq![cs.last()]
        }
    }
}

/// The configs whose model is in neither exclusion list, in order.
pub open spec fn drop_models(cs: Seq<ConfigView>, ex1: Seq<Seq<char>>, ex2: Seq<Seq<char>>) -> Seq<ConfigView>
    decreases cs.len(),
{
    if cs.len() == 0 {
        Seq::empty()
    } else {
        drop_models(cs.drop_last(), ex1, ex2) + if ex1.contains(cs.last().model) || ex2.contains(
            cs.last().model,
        ) {
            Seq::empty()
        } else {
            seq![cs.last()]
        }
    }
}

/// The hosts of a sequence of configs.
pub open spec fn hosts_of(cs: Seq<ConfigView>) -> Seq<Seq<char>> {
    cs.map_values(|c: ConfigView| host_of(c.base_url))
}

/// The provider pool: the resolved configs whose host no discovered config
/// serves, then the discovered configs, all without the excluded models.
pub open spec fn merged_pool(
    resolved: Seq<ConfigView>,
    discovered: Seq<ConfigView>,
    ex1: Seq<Seq<char>>,
    ex2: Seq<Seq<char>>,
) -> Seq<ConfigView> {
    drop_models(drop_hosts(resolved, hosts_of(discovered)) + discovered, ex1, ex2)
}

/// Whether `v` occurs in `list`.
fn contains_str(list: &[String], v: &str) -> (r: bool)
    ensures
        r == views(list@).contains(v@),
{
    let mut i: usize = 0;
    while i < list.len()
        invariant
            i <= list@.len(),
            forall|j: int| 0 <= j < i ==> views(list@)[j] != v@,
        decreases list@.len() - i,
    {
        if str_eq(list[i].as_str(), v) {
            assert(views(list@)[i as int] == v@);
            return true;
        }
        i = i + 1;
    }
    false
}

/// Builds the provider pool from the resolved configs and the configs
/// discovered elsewhere: a discovered config replaces the resolved ones of
/// the same host, and the models of both exclusion lists are dropped.
pub fn merge_discovered(
    resolved: Vec<HttpConfig>,
    discovered: Vec<HttpConfig>,
    config_excludes: &[String],
    cli_excludes: &[String],
) -> (r: Vec<HttpConfig>)
    ensures
        config_views(r@) == merged_pool(
            config_views(resolved@),
            config_views(discovered@),
            views(config_excludes@),
            views(cli_excludes@),
        ),
{
    let ghost dv = config_views(discovered@);
    let mut hosts: Vec<String> = Vec::new();
    let mut i: usize = 0;
    while i < discovered.len()
        invariant
            i <= discovered@.len(),
            dv == config_views(discovered@),
            views(hosts@) == hosts_of(dv).take(i as int),
        decreases discovered@.len() - i,
    {
        let ghost before = hosts@;
        let h = extract_host(discovered[i].base_url.as_str());
        hosts.push(h);
        assert(views(hosts@) =~= views(before).push(h@));
        i = i + 1;
        assert(views(hosts@) =~= hosts_of(dv).take(i as int));
    }
    assert(hosts_of(dv).take(i as int) =~= hosts_of(dv));
    let ghost rv = config_views(resolved@);
    let mut pool: Vec<HttpConfig> = Vec::new();
    let mut k: usize = 0;
    while k < resolved.len()
        invariant
            k <= resolved@.len(),
            rv == config_views(resolved@),
            views(hosts@) == hosts_of(dv),
            config_views(pool@) == drop_hosts(rv.take(k as int), hosts_of(dv)),
        decreases resolved@.len() - k,
    {
        let ghost before = pool@;
        assert(rv.take(k + 1).drop_last() =~= rv.take(k as int));
        let h = extract_host(resolved[k].base_url.as_str());
        if !contains_str(hosts.as_slice(), h.as_str()) {
            let c = resolved[k].clone();
            pool.push(c);
            assert(config_views(pool@) =~= config_views(before).push(config_view(c)));
        }
        assert(config_views(pool@) =~= drop_hosts(rv.take(k + 1), hosts_of(dv)));
        k = k + 1;
    }
    assert(rv.take(k as int) =~= rv);
    let mut m: usize = 0;
    while m < discovered.len()
        invariant
            m <= discovered@.len(),
            dv == config_views(discovered@),
            config_views(pool@) == drop_hosts(rv, hosts_of(dv)) + dv.take(m as int),
        decreases discovered@.len() - m,
    {
        let ghost before = pool@;
        let c = discovered[m].clone();
        pool.push(c);
        assert(config_views(pool@) =~= config_views(before).push(config_view(c)));
        m = m + 1;
        assert(config_views(pool@) =~= drop_hosts(rv, hosts_of(dv)) + dv.take(m as int));
    }
    assert(dv.take(m as int) =~= dv);
    let ghost all = config_views(pool@);
    let mut out: Vec<HttpConfig> = Vec::new();
    let mut n: usize = 0;
    while n < pool.len()
        invariant
            n <= pool@.len(),
            all == config_views(pool@),
            config_views(out@) == drop_models(all.take(n as int), views(config_excludes@), views(cli_excludes@)),
        decreases pool@.len() - n,
    {
        let ghost before = out@;
        assert(all.take(n + 1).drop_last() =~= all.take(n as int));
        let model = pool[n].model.as_str();
        if !contains_str(config_excludes, model) && !contains_str(cli_excludes, model) {
            let c = pool[n].clone();
            out.push(c);
            assert(config_views(out@) =~= config_views(before).push(config_view(c)));
        }
        assert(config_views(out@) =~= drop_models(all.take(n + 1), views(config_excludes@), views(cli_excludes@)));
        n = n + 1;
    }
    assert(all.take(n as int) =~= all);
    out
}

/// What a pi `models.json` says of one provider.
pub struct PiEntryView {
    pub api: Option<Seq<char>>,
    pub base_url: Option<Seq<char>>,
    pub api_key_ref: Option<Seq<char>>,
    pub models: Option<Option<Seq<char>>>,
}

/// One provider of pi's `models.json`: its `api`, `baseUrl` and `apiKey`
/// strings, and, when `models` is an array, the `id` of its first model.
#[derive(Debug)]
pub struct PiProviderEntry {
    /// The `api` string, if any.
    pub api: Option<String>,
    /// The `baseUrl` string, if any.
    pub base_url: Option<String>,
    /// The `apiKey` string, if any (pi writes `$ENV_VAR` references).
    pub api_key_ref: Option<String>,
    /// `None` when `models` is not an array; else the first model's `id`,
    /// if it has one.
    pub models: Option<Option<String>>,
}

impl View for PiProviderEntry {
    type V = PiEntryView;

    open spec fn view(&self) -> PiEntryView {
        PiEntryView {
            api: opt_view(self.api),
            base_url: opt_view(self.base_url),
            api_key_ref: opt_view(self.api_key_ref),
            models: match self.models {
                Some(m) => Some(opt_view(m)),
                None => None,
            },
        }
    }
}

/// What a pi `auth.json` says of one entry: its name, `type` and `key`.
pub struct PiAuthView {
    pub name: Seq<char>,
    pub kind: Option<Seq<char>>,
    pub key: Option<Seq<char>>,
}

/// One entry of pi's `auth.json`.
#[derive(Debug)]
pub struct PiAuthEntry {
    /// The entry's name.
    pub name: String,
    /// Its `type` string, if any.
    pub kind: Option<String>,
    /// Its `key` string, if any.
    pub key: Option<String>,
}

impl View for PiAuthEntry {
    type V = PiAuthView;

    open spec fn view(&self) -> PiAuthView {
        PiAuthView { name: self.name@, kind: opt_view(self.kind), key: opt_view(self.key) }
    }
}

/// What `serde_json` reads from a pi `models.json`: `None` unless the text
/// is JSON with a `providers` object; else that object's entries in the
/// order `serde_json::Map` walks them.
pub uninterp spec fn pi_models_entries(json: Seq<char>) -> Option<Seq<PiEntryView>>;

/// What `serde_json` reads from a pi `auth.json`: `None` unless the text is
/// a JSON object; else its entries in the order `serde_json::Map` walks
/// them.
pub uninterp spec fn pi_auth_entries(json: Seq<char>) -> Option<Seq<PiAuthView>>;

/// The views of provider entries.
pub open spec fn pi_entry_views(es: Seq<PiProviderEntry>) -> Seq<PiEntryView> {
    es.map_values(|e: PiProviderEntry| e@)
}

/// The views of auth entries.
pub open spec fn pi_auth_views(es: Seq<PiAuthEntry>) -> Seq<PiAuthView> {
    es.map_values(|e: PiAuthEntry| e@)
}

/// Parses a pi `models.json` with `serde_json::from_str` and reads, for each
/// entry of its `providers` object, the `api`, `baseUrl` and `apiKey`
/// strings and the first model's `id` (with `Value::get`, `as_str`,
/// `as_array`, `as_object`). The contract names the result
/// [`pi_models_entries`].
#[verifier::external_body]
fn read_pi_models(json: &str) -> (r: Option<Vec<PiProviderEntry>>)
    ensures
        match r {
            Some(es) => pi_models_entries(json@) == Some(pi_entry_views(es@)),
            None => pi_models_entries(json@) is None,
        },
{
    let v: serde_json::Value = serde_json::from_str(json).ok()?;
    let providers = v.get("providers").and_then(|p| p.as_object())?;
    let text = |p: &serde_json::Value, k: &str| p.get(k).and_then(|x| x.as_str()).map(|s| s.to_owned());
    Some(providers.values().map(|p| PiProviderEntry {
        api: text(p, "api"),
        base_url: text(p, "baseUrl"),
        api_key_ref: text(p, "apiKey"),
        models: p.get("models").and_then(|m| m.as_array()).map(|ms| ms.first().and_then(|m| text(m, "id"))),
    }).collect())
}

/// Parses a pi `auth.json` with `serde_json::from_str` and reads, for each
/// entry of the top-level object, its name and its `type` and `key`
/// strings. The contract names the result [`pi_auth_entries`].
#[verifier::external_body]
fn read_pi_auth(json: &str) -> (r: Option<Vec<PiAuthEntry>>)
    ensures
        match r {
            Some(es) => pi_auth_entries(json@) == Some(pi_auth_views(es@)),
            None => pi_auth_entries(json@) is None,
        },
{
    let v: serde_json::Value = serde_json::from_str(json).ok()?;
    let text = |p: &serde_json::Value, k: &str| p.get(k).and_then(|x| x.as_str()).map(|s| s.to_owned());
    Some(v.as_object()?.iter().map(|(name, e)| PiAuthEntry {
        name: name.to_owned(),
        kind: text(e, "type"),
        key: text(e, "key"),
    }).collect())
}

/// The keys of pi's `api_key` auth entries, by the variable each stands
/// for, in order.
pub open spec fn pi_auth_keys(es: Seq<PiAuthView>) -> Seq<(Seq<char>, Seq<char>)>
    decreases es.len(),
{
    if es.len() == 0 {
        Seq::empty()
    } else {
        let e = es.last();
        pi_auth_keys(es.drop_last()) + if e.kind == Some("api_key"@) && e.key is Some {
            seq![(auth_entry_env_var(e.name), e.key.unwrap())]
        } else {
            Seq::empty()
        }
    }
}

/// `r` without a leading `$`.
pub open spec fn strip_dollar(r: Seq<char>) -> Seq<char> {
    if r.len() > 0 && r[0] == '$' {
        r.skip(1)
    } else {
        r
    }
}

/// The config of one pi provider: only an `openai-completions` provider
/// with a base URL, a key reference and a model list counts, and only when
/// its key resolves (auth entries before the environment); the model is
/// the first model's id, else `default`.
pub open spec fn pi_config(
    e: PiEntryView,
    auth: Seq<(Seq<char>, Seq<char>)>,
    env: Seq<(Seq<char>, Seq<char>)>,
) -> Option<ConfigView> {
    if e.api != Some("openai-completions"@) || e.base_url is None || e.api_key_ref is None
        || e.models is None {
        None
    } else {
        let var = strip_dollar(e.api_key_ref.unwrap());
        match or_else(lookup(auth, var), lookup(env, var)) {
            None => None,
            Some(k) => Some(
                ConfigView {
                    base_url: e.base_url.unwrap(),
                    model: match e.models.unwrap() {
                        Some(id) => id,
                        None => "default"@,
                    },
                    api_key: k,
                },
            ),
        }
    }
}

/// The configs of the pi providers, in order.
pub open spec fn pi_configs(
    es: Seq<PiEntryView>,
    auth: Seq<(Seq<char>, Seq<char>)>,
    env: Seq<(Seq<char>, Seq<char>)>,
) -> Seq<ConfigView>
    decreases es.len(),
{
    if es.len() == 0 {
        Seq::empty()
    } else {
        pi_configs(es.drop_last(), auth, env) + match pi_config(es.last(), auth, env) {
            Some(c) => seq![c],
            None => Seq::empty(),
        }
    }
}

/// The configs pi's files describe: none unless `models.json` has a
/// `providers` object; keys from `auth.json` (when readable) before the
/// environment.
pub open spec fn pi_discovered(
    models_json: Seq<char>,
    auth_json: Option<Seq<char>>,
    env: Seq<(Seq<char>, Seq<char>)>,
) -> Seq<ConfigView> {
    match pi_models_entries(models_json) {
        None => Seq::empty(),
        Some(es) => {
            let auth = match auth_json {
                Some(a) => match pi_auth_entries(a) {
                    Some(ae) => pi_auth_keys(ae),
                    None => Seq::empty(),
                },
                None => Seq::empty(),
            };
            pi_configs(es, auth, env)
        },
    }
}

/// The `(variable, key)` pairs of pi's `api_key` auth entries.
fn auth_keys_of(es: &[PiAuthEntry]) -> (r: Vec<(String, String)>)
    ensures
        snapshot_view(r@) == pi_auth_keys(pi_auth_views(es@)),
{
    let ghost ev = pi_auth_views(es@);
    let mut out: Vec<(String, String)> = Vec::new();
    let mut i: usize = 0;
    proof {
        reveal_strlit("api_key");
    }
    while i < es.len()
        invariant
            i <= es@.len(),
            ev == pi_auth_views(es@),
            snapshot_view(out@) == pi_auth_keys(ev.take(i as int)),
        decreases es@.len() - i,
    {
        let ghost before = out@;
        assert(ev.take(i + 1).drop_last() =~= ev.take(i as int));
        let e = &es[i];
        let is_key = match &e.kind {
            Some(k) => str_eq(k.as_str(), "api_key"),
            None => false,
        };
        if is_key {
            match &e.key {
                Some(key) => {
                    let var = auth_entry_to_env_var(e.name.as_str());
                    let pair = (var, key.clone());
                    out.push(pair);
                    assert(snapshot_view(out@) =~= snapshot_view(before).push((pair.0@, pair.1@)));
                },
                None => {},
            }
        }
        assert(snapshot_view(out@) =~= pi_auth_keys(ev.take(i + 1)));
        i = i + 1;
    }
    assert(ev.take(i as int) =~= ev);
    out
}

/// The config of one pi provider, when it counts and its key resolves.
fn pi_config_of(e: &PiProviderEntry, auth: &[(String, String)], env: &[(String, String)]) -> (r: Option<HttpConfig>)
    ensures
        match r {
            Some(c) => pi_config(e@, snapshot_view(auth@), snapshot_view(env@)) == Some(config_view(c)),
            None => pi_config(e@, snapshot_view(auth@), snapshot_view(env@)) is None,
        },
{
    proof {
        reveal_strlit("openai-completions");
        reveal_strlit("default");
    }
    let is_openai = match &e.api {
        Some(a) => str_eq(a.as_str(), "openai-completions"),
        None => false,
    };
    if !is_openai {
        return None;
    }
    let (base_url, key_ref, models) = match (&e.base_url, &e.api_key_ref, &e.models) {
        (Some(b), Some(k), Some(m)) => (b, k, m),
        _ => {
            return None;
        },
    };
    let kv = chars_of(key_ref.as_str());
    let var = if kv.len() > 0 && kv[0] == '$' {
        crate::text::string_from_chars(&kv, 1, kv.len())
    } else {
        crate::text::string_from_chars(&kv, 0, kv.len())
    };
    assert(kv@.len() == 0 || kv@[0] != '$' || kv@.subrange(1, kv@.len() as int) =~= kv@.skip(1));
    assert(kv@.subrange(0, kv@.len() as int) =~= kv@);
    assert(var@ == strip_dollar(key_ref@));
    match first_of(snapshot_get(auth, var.as_str()), snapshot_get(env, var.as_str())) {
        None => None,
        Some(k) => {
            let model = match models {
                Some(id) => id.clone(),
                None => string_of("default"),
            };
            Some(HttpConfig { base_url: base_url.clone(), model, api_key: k })
        },
    }
}

/// The configs pi's `models.json` (and, when readable, `auth.json`)
/// describe, with keys from the auth entries before the environment
/// snapshot `env`. Malformed files give no configs.
pub fn pi_configs_from_json(models_json: &str, auth_json: Option<&str>, env: &[(String, String)]) -> (r: Vec<HttpConfig>)
    ensures
        config_views(r@) == pi_discovered(
            models_json@,
            match auth_json {
                Some(a) => Some(a@),
                None => None,
            },
            snapshot_view(env@),
        ),
{
    let entries = match read_pi_models(models_json) {
        Some(es) => es,
        None => {
            let r: Vec<HttpConfig> = Vec::new();
            assert(config_views(r@) =~= Seq::<ConfigView>::empty());
            return r;
        },
    };
    match auth_json {
        Some(a) => match read_pi_auth(a) {
            Some(ae) => pi_configs_from_entries(entries.as_slice(), Some(ae.as_slice()), env),
            None => pi_configs_from_entries(entries.as_slice(), None, env),
        },
        None => pi_configs_from_entries(entries.as_slice(), None, env),
    }
}

/// The configs of pi's provider entries, with keys from the `api_key` auth
/// entries (when there are any) before the environment snapshot `env`.
pub fn pi_configs_from_entries(entries: &[PiProviderEntry], auth: Option<&[PiAuthEntry]>, env: &[(String, String)]) -> (r: Vec<HttpConfig>)
    ensures
        config_views(r@) == pi_configs(
            pi_entry_views(entries@),
            match auth {
                Some(a) => pi_auth_keys(pi_auth_views(a@)),
                None => Seq::empty(),
            },
            snapshot_view(env@),
        ),
{
    let auth: Vec<(String, String)> = match auth {
        Some(ae) => auth_keys_of(ae),
        None => Vec::new(),
    };
    assert(snapshot_view(auth@).len() == 0 ==> snapshot_view(auth@) =~= Seq::<(Seq<char>, Seq<char>)>::empty());
    let ghost es = pi_entry_views(entries@);
    let ghost av = snapshot_view(auth@);
    let ghost envv = snapshot_view(env@);
    let mut out: Vec<HttpConfig> = Vec::new();
    let mut i: usize = 0;
    while i < entries.len()
        invariant
            i <= entries@.len(),
            es == pi_entry_views(entries@),
            av == snapshot_view(auth@),
            envv == snapshot_view(env@),
            config_views(out@) == pi_configs(es.take(i as int), av, envv),
        decreases entries@.len() - i,
    {
        let ghost before = out@;
        assert(es.take(i + 1).drop_last() =~= es.take(i as int));
        match pi_config_of(&entries[i], auth.as_slice(), env) {
            Some(c) => {
                out.push(c);
                assert(config_views(out@) =~= config_views(before).push(config_view(c)));
            },
            None => {},
        }
        assert(config_views(out@) =~= pi_configs(es.take(i + 1), av, envv));
        i = i + 1;
    }
    assert(es.take(i as int) =~= es);
    out
}

} // verus!
