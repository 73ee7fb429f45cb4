//! The `critique` subcommand's library half: the offline echo run, and the
//! multi-provider run with its fallback between providers.

use crate::agent::AgentId;
use crate::backend::echo::EchoAgent;
use crate::backend::http::HttpConfig;
use crate::backend::roster::{
    config_view, config_views, provider_views, registry_spec, roster_of, seeded_picks, seeded_roster,
    roster_views, ConfigView, Provider, ProviderView,
};
use crate::error::PraxisError;
use crate::graph::{id_views, InteractionGraph, Topology};
use crate::message::{Message, MessageKind, MessageView};
use crate::persona::{archetype, persona_views, Persona, PersonaView};
use crate::report::{critique_findings, render_markdown, Report};
use crate::runner::{all_registered, echo_critiques, lemma_echo_parallel_responses, Runner, SYSTEM_AGENT};
use crate::subject::Subject;
use crate::text::{decimal, decimal_string, join_strings, push_str, seq_join, str_eq, string_of, views};
use crate::transcript::Transcript;
use vstd::prelude::*;

verus! {

/// The default critic personas: a single Devil's Advocate.
pub fn default_personas() -> (r: Vec<Persona>)
    ensures
        r@.len() == 1,
        r@[0]@ == archetype(0),
{
    Persona::default_panel()
}

/// Runs a critique with the offline echo backend and renders the markdown
/// report: the default panel critiques the subject in parallel, each critic
/// echoing the subject back, and every critique becomes a finding. The echo
/// backend never fails, so neither does this.
pub fn run_critique_echo(input: &str, source: &str) -> (r: Result<String, PraxisError>)
    ensures
        r matches Ok(md) && md@ == render_markdown(
            critique_findings(echo_critiques(seq![archetype(0).name], input@)),
            if source@.len() == 0 {
                None
            } else {
                Some(source@)
            },
        ),
{
    let personas = default_personas();
    let mut ids: Vec<AgentId> = Vec::new();
    let mut i: usize = 0;
    while i < personas.len()
        invariant
            i <= personas@.len(),
            id_views(ids@) == persona_views(personas@).map_values(|p: PersonaView| p.name).take(i as int),
        decreases personas@.len() - i,
    {
        let ghost before = ids@;
        let id = AgentId::new(personas[i].name());
        ids.push(id);
        assert(id_views(ids@) =~= id_views(before).push(id@));
        i = i + 1;
        assert(id_views(ids@) =~= persona_views(personas@).map_values(|p: PersonaView| p.name).take(i as int));
    }
    assert(persona_views(personas@).map_values(|p: PersonaView| p.name).take(i as int) =~= seq![archetype(0).name]);
    let graph = InteractionGraph::from_topology(Topology::parallel(ids));
    let mut runner = Runner::new(graph);
    let ghost critics = crate::graph::graph_critics(runner.spec_graph());
    assert(id_views(critics) == seq![archetype(0).name]);
    let mut k: usize = 0;
    let n = personas.len();
    let mut rest = personas;
    while rest.len() > 0
        invariant
            runner.spec_graph() == graph,
            critics == crate::graph::graph_critics(graph),
            id_views(critics) == seq![archetype(0).name],
            rest@.len() + k == 1,
            k == 1 ==> runner.registered().contains(archetype(0).name),
            k == 0 ==> rest@[0]@ == archetype(0),
            runner.echo_only(),
        decreases rest@.len(),
    {
        let ghost r0 = rest@;
        let persona = rest.remove(0);
        assert(persona == r0[0]);
        let id = AgentId::new(persona.name());
        let ghost idv = id@;
        assert(idv == archetype(0).name);
        let ghost reg0 = runner.registered();
        runner = runner.with_agent(EchoAgent::new(id, persona));
        assert(runner.registered().contains(idv)) by {
            if !reg0.contains(idv) {
                assert(runner.registered()[reg0.len() as int] == idv);
            }
        }
        k = k + 1;
    }
    assert(k == 1);
    let subject = Subject::from_markdown(input, source);
    assert(all_registered(critics, runner.registered())) by {
        assert forall|i: int| 0 <= i < critics.len() implies runner.registered().contains(#[trigger] critics[i]@) by {
            assert(id_views(critics)[i] == critics[i]@);
        }
    }
    match runner.execute(&subject) {
        Ok(transcript) => {
            proof {
                lemma_echo_parallel_responses(seq![archetype(0).name], input@, runner.last_run());
            }
            let report = Report::from_transcript(&transcript);
            Ok(report.to_markdown_with_source(subject.source()))
        },
        Err(e) => Err(e),
    }
}

/// The configs a critic tries, in order: its own, then each other config
/// whose model differs from its own.
pub open spec fn fallback_order(primary: ConfigView, configs: Seq<ConfigView>) -> Seq<ConfigView>
    decreases configs.len(),
{
    if configs.len() == 0 {
        seq![primary]
    } else {
        fallback_order(primary, configs.drop_last()) + if configs.last().model != primary.model {
            seq![configs.last()]
        } else {
            Seq::empty()
        }
    }
}

/// The configs a critic tries, in order: `primary`, then each config whose
/// model differs from it.
pub fn configs_to_try(primary: &HttpConfig, configs: &[HttpConfig]) -> (r: Vec<HttpConfig>)
    ensures
        config_views(r@) == fallback_order(config_view(*primary), config_views(configs@)),
{
    let ghost cv = config_views(configs@);
    let mut out: Vec<HttpConfig> = Vec::new();
    let first = primary.clone();
    out.push(first);
    assert(config_views(out@) =~= seq![config_view(*primary)]);
    let mut i: usize = 0;
    while i < configs.len()
        invariant
            i <= configs@.len(),
            cv == config_views(configs@),
            config_views(out@) == fallback_order(config_view(*primary), cv.take(i as int)),
        decreases configs@.len() - i,
    {
        let ghost before = out@;
        assert(cv.take(i + 1).drop_last() =~= cv.take(i as int));
        if !str_eq(configs[i].model.as_str(), primary.model.as_str()) {
            let c = configs[i].clone();
            out.push(c);
            assert(config_views(out@) =~= config_views(before).push(config_view(c)));
        }
        assert(config_views(out@) =~= fallback_order(config_view(*primary), cv.take(i + 1)));
        i = i + 1;
    }
    assert(cv.take(i as int) =~= cv);
    out
}

/// Where the critics of a multi-provider run get their answers: a model
/// behind an HTTP config, asked as a given critic.
pub trait CriticBackend {
    /// Whether this backend keeps a log of the requests made to it
    /// ([`CriticBackend::requests`]); by default it does not.
    open spec fn logs(&self) -> bool {
        false
    }

    /// The requests made to this backend, in order, where it keeps a log:
    /// the critic asked, the config, the prompt, and the answer given.
    open spec fn requests(&self) -> Seq<Ask> {
        Seq::empty()
    }

    /// Asks the model of `config`, as critic `id` with `persona`, to answer
    /// `prompt`. A logging backend logs the request and its answer.
    fn respond(&mut self, id: &AgentId, persona: &Persona, config: &HttpConfig, prompt: &Message) -> (r: Result<Message, PraxisError>)
        ensures
            final(self).logs() == old(self).logs(),
            old(self).logs() ==> final(self).requests() == old(self).requests().push(
                (Ask { critic: id@, config: config_view(*config), prompt: prompt@, answer: answer_view(r) }),
            ),
    ;

    /// Reports a line of progress; no request is made.
    fn progress(&mut self, line: &str)
        ensures
            final(self).logs() == old(self).logs(),
            old(self).logs() ==> final(self).requests() == old(self).requests(),
    ;
}

/// A backend that logs, in ghost state, every request passed on to the
/// backend it wraps.
pub struct Recorded<B> {
    /// The wrapped backend.
    pub inner: B,
    log: Ghost<Seq<Ask>>,
}

impl<B: CriticBackend> Recorded<B> {
    /// Wraps `inner` with an empty log.
    pub fn new(inner: B) -> (r: Self)
        ensures
            r.logs(),
            r.requests() == Seq::<Ask>::empty(),
    {
        Recorded { inner, log: Ghost(Seq::empty()) }
    }
}

impl<B: CriticBackend> CriticBackend for Recorded<B> {
    open spec fn logs(&self) -> bool {
        true
    }

    closed spec fn requests(&self) -> Seq<Ask> {
        self.log@
    }

    fn respond(&mut self, id: &AgentId, persona: &Persona, config: &HttpConfig, prompt: &Message) -> (r: Result<Message, PraxisError>) {
        let r = self.inner.respond(id, persona, config, prompt);
        self.log = Ghost(self.log@.push(Ask { critic: id@, config: config_view(*config), prompt: prompt@, answer: answer_view(r) }));
        r
    }

    fn progress(&mut self, line: &str) {
        self.inner.progress(line);
    }
}

/// The answer a backend's result gives: the message, or none on failure.
pub open spec fn answer_view(r: Result<Message, PraxisError>) -> Option<MessageView> {
    match r {
        Ok(m) => Some(m@),
        Err(_) => None,
    }
}

/// The requests of a run, critic after critic.
pub open spec fn run_requests(all: Seq<Seq<Ask>>) -> Seq<Ask>
    decreases all.len(),
{
    if all.len() == 0 {
        Seq::empty()
    } else {
        run_requests(all.drop_last()) + all.last()
    }
}

/// One request made to a critic backend: the critic asked, the config it
/// was asked by, the prompt, and the answer (`None` when the backend failed).
pub struct Ask {
    pub critic: Seq<char>,
    pub config: ConfigView,
    pub prompt: MessageView,
    pub answer: Option<MessageView>,
}

/// The outcome of a multi-provider run: the answers given and the critics
/// every provider failed for.
pub struct CriticRun {
    /// One answer per critic that got one, in roster order.
    pub transcript: Transcript,
    /// The names of the critics that got none, in roster order.
    pub skipped: Vec<String>,
    /// The requests made for each critic, in roster order.
    pub asks: Ghost<Seq<Seq<Ask>>>,
}

/// The subject prompt critic `id` receives.
pub open spec fn critic_prompt(id: Seq<char>, text: Seq<char>) -> MessageView {
    crate::runner::subject_prompt(id, text)
}

/// `asks` are the requests for critic `critic` over `tries`: the subject
/// prompt, by each config in order, until one answers or none is left.
pub open spec fn asked_in_order(critic: Seq<char>, text: Seq<char>, tries: Seq<ConfigView>, asks: Seq<Ask>) -> bool {
    &&& asks.len() <= tries.len()
    &&& forall|j: int|
        0 <= j < asks.len() ==> (#[trigger] asks[j]).critic == critic && asks[j].config == tries[j]
            && asks[j].prompt == critic_prompt(critic, text)
    &&& forall|j: int| 0 <= j < asks.len() - 1 ==> (#[trigger] asks[j]).answer is None
    &&& asks.len() == tries.len() || (asks.len() > 0 && asks.last().answer is Some)
}

/// The answer a critic got from its requests: that of the last one, if any.
pub open spec fn answer_of(asks: Seq<Ask>) -> Option<MessageView> {
    if asks.len() > 0 {
        asks.last().answer
    } else {
        None
    }
}

/// The answers the critics got, in order.
pub open spec fn answers(all: Seq<Seq<Ask>>) -> Seq<MessageView>
    decreases all.len(),
{
    if all.len() == 0 {
        Seq::empty()
    } else {
        answers(all.drop_last()) + match answer_of(all.last()) {
            Some(m) => seq![m],
            None => Seq::empty(),
        }
    }
}

/// The names of the critics that got no answer, in order.
pub open spec fn skipped_of(names: Seq<Seq<char>>, all: Seq<Seq<Ask>>) -> Seq<Seq<char>>
    decreases all.len(),
{
    if all.len() == 0 || names.len() == 0 {
        Seq::empty()
    } else {
        skipped_of(names.drop_last(), all.drop_last()) + if answer_of(all.last()) is None {
            seq![names.last()]
        } else {
            Seq::empty()
        }
    }
}

/// `all` are the requests of a multi-provider run with draws `picks`: each
/// persona's critic was asked over the fallback order of its drawn config.
pub open spec fn fallback_run(
    personas: Seq<PersonaView>,
    configs: Seq<ConfigView>,
    text: Seq<char>,
    picks: Seq<usize>,
    all: Seq<Seq<Ask>>,
) -> bool {
    &&& picks.len() == personas.len()
    &&& forall|i: int| 0 <= i < picks.len() ==> picks[i] < configs.len()
    &&& all.len() == personas.len()
    &&& forall|i: int|
        0 <= i < all.len() ==> asked_in_order(
            personas[i].name,
            text,
            fallback_order(configs[picks[i] as int], configs),
            #[trigger] all[i],
        )
}

/// Asks one critic, trying its configs in order until one answers; with
/// no config to try there is no answer. Which answer comes back is the
/// backend's; the requests made are recorded.
fn ask_critic<B: CriticBackend>(
    backend: &mut B,
    persona: &Persona,
    tries: &Vec<HttpConfig>,
    text: &str,
    json: bool,
) -> (r: (Option<Message>, Ghost<Seq<Ask>>))
    ensures
        tries@.len() == 0 ==> r.0 is None,
        asked_in_order(persona@.name, text@, config_views(tries@), r.1@),
        final(backend).logs() == old(backend).logs(),
        old(backend).logs() ==> final(backend).requests() == old(backend).requests() + r.1@,
        match r.0 {
            Some(m) => answer_of(r.1@) == Some(m@),
            None => answer_of(r.1@) is None,
        },
{
    let id = AgentId::new(persona.name());
    let system = AgentId::new(SYSTEM_AGENT);
    let prompt = Message::new(system, Some(id.clone()), MessageKind::Prompt, text);
    let ghost tv = config_views(tries@);
    let ghost mut asks: Seq<Ask> = Seq::empty();
    assert(prompt@ == critic_prompt(persona@.name, text@));
    let mut i: usize = 0;
    while i < tries.len()
        invariant
            i <= tries@.len(),
            tv == config_views(tries@),
            id@ == persona@.name,
            prompt@ == critic_prompt(persona@.name, text@),
            asks.len() == i,
            forall|j: int|
                0 <= j < asks.len() ==> (#[trigger] asks[j]).critic == persona@.name && asks[j].config == tv[j]
                    && asks[j].prompt == critic_prompt(persona@.name, text@),
            forall|j: int| 0 <= j < asks.len() ==> (#[trigger] asks[j]).answer is None,
            backend.logs() == old(backend).logs(),
            old(backend).logs() ==> backend.requests() == old(backend).requests() + asks,
        decreases tries@.len() - i,
    {
        match backend.respond(&id, persona, &tries[i], &prompt) {
            Ok(m) => {
                proof {
                    let ghost before = asks;
                    asks = asks.push(Ask { critic: persona@.name, config: tv[i as int], prompt: prompt@, answer: Some(m@) });
                }
                if !json {
                    let mut line = string_of("  ✓ ");
                    push_str(&mut line, persona.name());
                    if i > 0 {
                        push_str(&mut line, " (reassigned to ");
                    } else {
                        push_str(&mut line, " (");
                    }
                    push_str(&mut line, tries[i].model.as_str());
                    push_str(&mut line, ")");
                    backend.progress(line.as_str());
                }
                return (Some(m), Ghost(asks));
            },
            Err(_) => {
                proof {
                    let ghost before = asks;
                    asks = asks.push(Ask { critic: persona@.name, config: tv[i as int], prompt: prompt@, answer: None });
                }
                if !json {
                    let mut line = string_of("  ✗ ");
                    push_str(&mut line, persona.name());
                    push_str(&mut line, " (");
                    push_str(&mut line, tries[i].model.as_str());
                    push_str(&mut line, ") failed, trying next provider...");
                    backend.progress(line.as_str());
                }
            },
        }
        i = i + 1;
    }
    (None, Ghost(asks))
}

/// Runs the critics of a multi-provider critique: the personas are given
/// configs at random with a generator seeded from `seed`; each critic is
/// asked the subject by its config, and, when that fails, by each other
/// config of a different model in turn; a critic every config fails for is
/// skipped. Progress goes to the backend unless `json`.
///
/// Fails with [`PraxisError::NoAuthedProviders`], naming the registry, when
/// there are no configs, and with an agent failure when every critic was
/// skipped.
pub fn run_critics<B: CriticBackend>(
    backend: &mut B,
    subject: &Subject,
    personas: &[Persona],
    configs: &[HttpConfig],
    seed: u64,
    json: bool,
) -> (r: Result<CriticRun, PraxisError>)
    ensures
        configs@.len() == 0 ==> (r matches Err(e) && e matches PraxisError::NoAuthedProviders(tried)
            && views(tried@) == crate::backend::roster::provider_names(registry_spec())),
        configs@.len() > 0 && personas@.len() == 0 ==> r is Err,
        r matches Ok(run) ==> run.transcript@.len() > 0 && run.transcript@.len() + run.skipped@.len()
            == personas@.len(),
        r matches Err(e) ==> (configs@.len() == 0 && e is NoAuthedProviders) || (configs@.len() > 0
            && crate::backend::http::is_agent_failure(
            e,
            ("all critics"@, "every provider failed for every critic; nothing to report"@),
        )),
        r matches Ok(run) ==> fallback_run(
            persona_views(personas@),
            config_views(configs@),
            subject@.text,
            seeded_picks(seed, configs@.len() as usize, personas@.len()),
            run.asks@,
        ) && run.transcript@ == answers(run.asks@) && views(run.skipped@) == skipped_of(
            persona_views(personas@).map_values(|p: PersonaView| p.name),
            run.asks@,
        ),
        configs@.len() > 0 ==> (r is Err ==> exists|all: Seq<Seq<Ask>>|
            #[trigger] fallback_run(
                persona_views(personas@),
                config_views(configs@),
                subject@.text,
                seeded_picks(seed, configs@.len() as usize, personas@.len()),
                all,
            )
                && answers(all).len() == 0 && (old(backend).logs() ==> final(backend).requests()
                == old(backend).requests() + run_requests(all))),
        final(backend).logs() == old(backend).logs(),
        old(backend).logs() ==> (r matches Ok(run) ==> final(backend).requests() == old(backend).requests()
            + run_requests(run.asks@)),
        old(backend).logs() && configs@.len() == 0 ==> final(backend).requests() == old(backend).requests(),
{
    if configs.len() == 0 {
        let registry = Provider::registry();
        let r = crate::backend::roster::roster_from_configs(personas, registry.as_slice(), configs, seed);
        return match r {
            Ok(_) => {
                assert(false);
                Err(PraxisError::no_authed_providers(Vec::new()))
            },
            Err(e) => Err(e),
        };
    }
    let ghost pv = persona_views(personas@);
    let ghost cv = config_views(configs@);
    let ghost names = pv.map_values(|p: PersonaView| p.name);
    let ghost text = subject@.text;
    let roster = seeded_roster(personas, configs, seed);
    let ghost picks = seeded_picks(seed, configs@.len() as usize, personas@.len());
    proof {
        assert(roster_views(roster@).len() == roster@.len());
        assert(roster_of(pv, cv, picks).len() == personas@.len());
        assert forall|k: int| 0 <= k < picks.len() implies picks[k] < configs@.len() by {
            assert(seeded_picks(seed, configs@.len() as usize, personas@.len())[k] < configs@.len());
        }
    }
    let mut transcript = Transcript::new();
    let mut skipped: Vec<String> = Vec::new();
    let ghost mut all: Seq<Seq<Ask>> = Seq::empty();
    let mut i: usize = 0;
    while i < roster.len()
        invariant
            i <= roster@.len(),
            roster@.len() == personas@.len(),
            pv == persona_views(personas@),
            cv == config_views(configs@),
            names == pv.map_values(|p: PersonaView| p.name),
            text == subject@.text,
            picks.len() == personas@.len(),
            forall|k: int| 0 <= k < picks.len() ==> picks[k] < configs@.len(),
            roster_views(roster@) == roster_of(pv, cv, picks),
            all.len() == i,
            forall|k: int|
                0 <= k < i ==> asked_in_order(pv[k].name, text, fallback_order(cv[picks[k] as int], cv), #[trigger] all[k]),
            transcript@ == answers(all),
            views(skipped@) == skipped_of(names.take(i as int), all),
            transcript@.len() + skipped@.len() == i,
            backend.logs() == old(backend).logs(),
            old(backend).logs() ==> backend.requests() == old(backend).requests() + run_requests(all),
        decreases roster@.len() - i,
    {
        proof {
            assert(roster_views(roster@)[i as int] == roster_of(pv, cv, picks)[i as int]);
            assert(roster@[i as int].0@ == pv[i as int]);
            assert(config_view(roster@[i as int].1) == cv[picks[i as int] as int]);
        }
        let tries = configs_to_try(&roster[i].1, configs);
        let (answer, Ghost(asks)) = ask_critic(backend, &roster[i].0, &tries, subject.text(), json);
        let ghost before = all;
        proof {
            all = all.push(asks);
            assert(all.drop_last() =~= before);
            assert(run_requests(all) == run_requests(before) + asks);
            assert(names.take(i + 1).drop_last() =~= names.take(i as int));
            assert(names.take(i + 1).last() == pv[i as int].name);
        }
        match answer {
            Some(m) => {
                transcript.push(m);
                assert(transcript@ =~= answers(all));
                assert(views(skipped@) =~= skipped_of(names.take(i + 1), all));
            },
            None => {
                if !json {
                    let mut line = string_of("  — ");
                    push_str(&mut line, roster[i].0.name());
                    push_str(&mut line, " skipped (all providers failed)");
                    backend.progress(line.as_str());
                }
                let ghost s0 = skipped@;
                skipped.push(string_of(roster[i].0.name()));
                assert(views(skipped@) =~= views(s0).push(pv[i as int].name));
                assert(transcript@ =~= answers(all));
                assert(views(skipped@) =~= skipped_of(names.take(i + 1), all));
            },
        }
        proof {
            assert forall|k: int|
                0 <= k < i + 1 implies asked_in_order(pv[k].name, text, fallback_order(cv[picks[k] as int], cv), #[trigger] all[k]) by {
                if k < i {
                    assert(all[k] == before[k]);
                }
            }
        }
        i = i + 1;
    }
    proof {
        assert(roster_of(pv, cv, picks).len() == pv.len());
        assert(fallback_run(pv, cv, text, picks, all));
        assert(names.take(i as int) =~= names);
    }
    if transcript.len() == 0 {
        return Err(
            PraxisError::agent_failure(
                "all critics",
                "every provider failed for every critic; nothing to report",
            ),
        );
    }
    Ok(CriticRun { transcript, skipped, asks: Ghost(all) })
}

/// The markdown body of a multi-provider critique: the report, the seed
/// line, and the skipped critics when there are any.
pub open spec fn critique_body(report: Seq<char>, seed: u64, skipped: Seq<Seq<char>>) -> Seq<char> {
    report + "\n_Reproducibility: seed `"@ + decimal(seed as nat) + "`_\n"@ + if skipped.len() == 0 {
        Seq::empty()
    } else {
        "\n_Skipped critics (provider failures): "@ + seq_join(skipped, ", "@) + "_\n"@
    }
}

/// Renders the markdown body of a multi-provider critique: the report with
/// its subject line, the seed that makes the run reproducible, and the
/// critics that were skipped.
pub fn critique_markdown(report: &Report, source: Option<&str>, seed: u64, skipped: &Vec<String>) -> (r: String)
    ensures
        r@ == critique_body(
            render_markdown(
                report@,
                match source {
                    Some(s) => Some(s@),
                    None => None,
                },
            ),
            seed,
            views(skipped@),
        ),
{
    let mut body = report.to_markdown_with_source(source);
    let ghost b0 = body@;
    push_str(&mut body, "\n_Reproducibility: seed `");
    push_str(&mut body, decimal_string(seed).as_str());
    push_str(&mut body, "`_\n");
    if skipped.len() > 0 {
        let names = join_strings(skipped, ", ");
        push_str(&mut body, "\n_Skipped critics (provider failures): ");
        push_str(&mut body, names.as_str());
        push_str(&mut body, "_\n");
    }
    body
}

/// The model names of a comma-separated `--exclude` value: the pieces,
/// trimmed, empty ones dropped.
pub fn parse_excludes(value: &str) -> (r: Vec<String>)
    ensures
        views(r@) == crate::summary::critic_names(crate::summary::pieces(value@, 0, ',')),
{
    let v = crate::text::chars_of(value);
    let ids = crate::summary::critics_of(&v);
    let mut out: Vec<String> = Vec::new();
    let mut i: usize = 0;
    while i < ids.len()
        invariant
            i <= ids@.len(),
            views(out@) == id_views(ids@).take(i as int),
        decreases ids@.len() - i,
    {
        let ghost before = out@;
        let n = string_of(ids[i].as_str());
        out.push(n);
        assert(views(out@) =~= views(before).push(n@));
        i = i + 1;
        assert(views(out@) =~= id_views(ids@).take(i as int));
    }
    assert(id_views(ids@).take(i as int) =~= id_views(ids@));
    out
}

/// The registry provider a config belongs to: the first whose model or
/// base URL it has, else `custom`.
pub open spec fn provider_of(reg: Seq<ProviderView>, c: ConfigView) -> Seq<char>
    decreases reg.len(),
{
    if reg.len() == 0 {
        "custom"@
    } else if reg[0].model == c.model || reg[0].base_url == c.base_url {
        reg[0].name
    } else {
        provider_of(reg.drop_first(), c)
    }
}

/// Names the registry provider a config belongs to (else `custom`).
pub fn identify_provider(cfg: &HttpConfig) -> (r: String)
    ensures
        r@ == provider_of(registry_spec(), config_view(*cfg)),
{
    let reg = Provider::registry();
    let ghost rv = provider_views(reg@);
    let mut i: usize = 0;
    assert(rv.skip(0) =~= rv);
    while i < reg.len()
        invariant
            i <= reg@.len(),
            rv == provider_views(reg@),
            rv == registry_spec(),
            provider_of(rv, config_view(*cfg)) == provider_of(rv.skip(i as int), config_view(*cfg)),
        decreases reg@.len() - i,
    {
        assert(rv.skip(i as int).drop_first() =~= rv.skip(i + 1));
        assert(rv.skip(i as int)[0] == reg@[i as int]@);
        if str_eq(reg[i].model(), cfg.model.as_str()) || str_eq(reg[i].base_url(), cfg.base_url.as_str()) {
            return string_of(reg[i].name());
        }
        i = i + 1;
    }
    proof {
        reveal_strlit("custom");
    }
    string_of("custom")
}

} // verus!
