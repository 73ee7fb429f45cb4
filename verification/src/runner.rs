//! The runner: executes an [`InteractionGraph`] against a registry of agents.
//!
//! The subject is broadcast to every critic as a [`MessageKind::Prompt`]
//! authored by `system`. A `Parallel` graph stops there. A `Rounds` graph
//! then routes, round after round, each critic the prior round's messages
//! from the *other* critics; it stops once a round produces no rebuttal and
//! never runs more than `max_rounds` rounds.
//!
//! What an agent answers is up to its backend. The contract of
//! [`Runner::execute`] therefore describes every run through the exchanges
//! it made (`Runner::last_run`): which critic received which message, in
//! which order, for whatever the agents answered. An agent that keeps a log
//! ([`Agent::exchanges`]) is seen to receive exactly the messages routed to
//! it, and the run records exactly what it answered.

use crate::agent::{reply_view, Agent, AgentId};
use crate::backend::echo::{echo_reply, EchoAgent};
use crate::error::PraxisError;
use crate::graph::{clone_ids, graph_critics, id_views, InteractionGraph};
use crate::message::{Message, MessageKind, MessageView};
use crate::subject::Subject;
use crate::text::string_of;
use crate::transcript::{message_views, Transcript};
use vstd::prelude::*;

verus! {

/// The reserved sender identity for system-originated prompts.
pub const SYSTEM_AGENT: &'static str = "system";

/// One delivery made during a run: the critic that received a message, the
/// message, and the critic's response.
pub struct Exchange {
    pub critic: Seq<char>,
    pub prompt: MessageView,
    pub response: MessageView,
}

/// The subject prompt a critic receives in the first round.
pub open spec fn subject_prompt(critic: Seq<char>, text: Seq<char>) -> MessageView {
    MessageView { sender: "system"@, recipient: Some(critic), kind: MessageKind::Prompt, text }
}

/// The deliveries of the first round: the subject, to each critic in order.
pub open spec fn first_round(critics: Seq<Seq<char>>, text: Seq<char>) -> Seq<(Seq<char>, MessageView)> {
    critics.map_values(|c: Seq<char>| (c, subject_prompt(c, text)))
}

/// The messages of `prior` that critic `c` receives: those it did not send.
pub open spec fn others(c: Seq<char>, prior: Seq<MessageView>) -> Seq<(Seq<char>, MessageView)>
    decreases prior.len(),
{
    if prior.len() == 0 {
        Seq::empty()
    } else {
        others(c, prior.drop_last()) + if prior.last().sender != c {
            seq![(c, prior.last())]
        } else {
            Seq::empty()
        }
    }
}

/// The deliveries of a later round: for each critic in order, the prior
/// round's messages from the other critics, in order.
pub open spec fn cross_round(critics: Seq<Seq<char>>, prior: Seq<MessageView>) -> Seq<(Seq<char>, MessageView)>
    decreases critics.len(),
{
    if critics.len() == 0 {
        Seq::empty()
    } else {
        cross_round(critics.drop_last(), prior) + others(critics.last(), prior)
    }
}

/// Who received what, in a sequence of exchanges.
pub open spec fn delivered(trace: Seq<Exchange>) -> Seq<(Seq<char>, MessageView)> {
    trace.map_values(|e: Exchange| (e.critic, e.prompt))
}

/// The responses, in a sequence of exchanges.
pub open spec fn responses(trace: Seq<Exchange>) -> Seq<MessageView> {
    trace.map_values(|e: Exchange| e.response)
}

/// Whether any message is a rebuttal.
pub open spec fn any_rebuttal(ms: Seq<MessageView>) -> bool
    decreases ms.len(),
{
    if ms.len() == 0 {
        false
    } else {
        any_rebuttal(ms.drop_last()) || ms.last().kind == MessageKind::Rebuttal
    }
}

/// `trace` is what the rounds after a round with responses `prior` make,
/// with at most `left` rounds to go: each round delivers [`cross_round`];
/// the run stops after a round without a rebuttal, or when no round is left.
pub open spec fn later_rounds(critics: Seq<Seq<char>>, prior: Seq<MessageView>, left: nat, trace: Seq<Exchange>) -> bool
    decreases left,
{
    if left == 0 {
        trace.len() == 0
    } else {
        let d = cross_round(critics, prior);
        let seg = trace.take(d.len() as int);
        &&& d.len() <= trace.len()
        &&& delivered(seg) == d
        &&& if any_rebuttal(responses(seg)) {
            later_rounds(critics, responses(seg), (left - 1) as nat, trace.skip(d.len() as int))
        } else {
            trace.len() == d.len()
        }
    }
}

/// `trace` is the run of a parallel graph: one subject prompt per critic.
pub open spec fn parallel_run(critics: Seq<Seq<char>>, text: Seq<char>, trace: Seq<Exchange>) -> bool {
    delivered(trace) == first_round(critics, text)
}

/// `trace` is the run of a rounds graph with at most `max_rounds` rounds.
pub open spec fn rounds_run(critics: Seq<Seq<char>>, text: Seq<char>, max_rounds: nat, trace: Seq<Exchange>) -> bool {
    if max_rounds == 0 {
        trace.len() == 0
    } else {
        let n = critics.len() as int;
        &&& n <= trace.len()
        &&& delivered(trace.take(n)) == first_round(critics, text)
        &&& later_rounds(critics, responses(trace.take(n)), (max_rounds - 1) as nat, trace.skip(n))
    }
}

/// `trace` is a run of graph `g` over a subject with text `text`.
pub open spec fn graph_run(g: InteractionGraph, text: Seq<char>, trace: Seq<Exchange>) -> bool {
    match g {
        InteractionGraph::Parallel { critics } => parallel_run(id_views(critics@), text, trace),
        InteractionGraph::Rounds { critics, max_rounds } => rounds_run(
            id_views(critics@),
            text,
            max_rounds as nat,
            trace,
        ),
    }
}

/// `e` reports a critic of `critics` under whose id no agent is registered.
pub open spec fn missing_critic(e: PraxisError, critics: Seq<AgentId>, registered: Seq<Seq<char>>) -> bool {
    exists|i: int|
        0 <= i < critics.len() && e == PraxisError::MissingAgent(critics[i]) && !registered.contains(
            #[trigger] critics[i]@,
        )
}

/// Every critic of `critics` has an agent registered under its id.
pub open spec fn all_registered(critics: Seq<AgentId>, registered: Seq<Seq<char>>) -> bool {
    forall|i: int| 0 <= i < critics.len() ==> registered.contains(#[trigger] critics[i]@)
}

/// The echo critiques of a subject: each critic's echo of the prompt
/// carrying the subject, in critic order.
pub open spec fn echo_critiques(critics: Seq<Seq<char>>, text: Seq<char>) -> Seq<MessageView> {
    critics.map_values(|c: Seq<char>| echo_reply(c, subject_prompt(c, text)))
}

/// A parallel run whose critics all echo answers each critic's echo of the
/// subject, in critic order.
pub proof fn lemma_echo_parallel_responses(critics: Seq<Seq<char>>, text: Seq<char>, trace: Seq<Exchange>)
    requires
        parallel_run(critics, text, trace),
        echo_answered(trace),
    ensures
        responses(trace) == echo_critiques(critics, text),
{
    assert(delivered(trace).len() == first_round(critics, text).len());
    assert forall|i: int| 0 <= i < trace.len() implies #[trigger] responses(trace)[i] == echo_critiques(critics, text)[i] by {
        assert(delivered(trace)[i] == first_round(critics, text)[i]);
        assert(trace[i].response == echo_reply(trace[i].critic, trace[i].prompt));
    }
    assert(responses(trace) =~= echo_critiques(critics, text));
}

proof fn lemma_echo_answered_concat(a: Seq<Exchange>, b: Seq<Exchange>)
    requires
        echo_answered(a),
        echo_answered(b),
    ensures
        echo_answered(a + b),
{
    assert forall|i: int| 0 <= i < (a + b).len() implies (#[trigger] (a + b)[i]).response == echo_reply(
        (a + b)[i].critic,
        (a + b)[i].prompt,
    ) by {
        if i < a.len() {
            assert((a + b)[i] == a[i]);
        } else {
            assert((a + b)[i] == b[i - a.len()]);
        }
    }
}

proof fn lemma_delivered_push(trace: Seq<Exchange>, e: Exchange)
    ensures
        delivered(trace.push(e)) == delivered(trace).push((e.critic, e.prompt)),
        responses(trace.push(e)) == responses(trace).push(e.response),
        any_rebuttal(responses(trace.push(e))) == (any_rebuttal(responses(trace)) || e.response.kind
            == MessageKind::Rebuttal),
{
    assert(delivered(trace.push(e)) =~= delivered(trace).push((e.critic, e.prompt)));
    assert(responses(trace.push(e)) =~= responses(trace).push(e.response));
    assert(responses(trace).push(e.response).drop_last() =~= responses(trace));
}

/// After a round without a rebuttal the rounds stop: a run of the remaining
/// rounds is that round alone.
proof fn lemma_round_stops(
    cv: Seq<Seq<char>>,
    pv: Seq<MessageView>,
    left: nat,
    seg: Seq<Exchange>,
    pv1: Seq<MessageView>,
    max1: nat,
    done: Seq<Exchange>,
)
    requires
        left >= 1,
        delivered(seg) == cross_round(cv, pv),
        !any_rebuttal(responses(seg)),
        forall|rest: Seq<Exchange>| #[trigger] later_rounds(cv, pv, left, rest) ==> later_rounds(cv, pv1, max1, done + rest),
    ensures
        later_rounds(cv, pv1, max1, done + seg),
{
    let d = cross_round(cv, pv);
    assert(delivered(seg).len() == seg.len());
    assert(seg.take(d.len() as int) =~= seg);
    assert(later_rounds(cv, pv, left, seg));
}

/// After a round with a rebuttal, the remaining rounds continue from that
/// round's responses.
proof fn lemma_round_continues(
    cv: Seq<Seq<char>>,
    pv: Seq<MessageView>,
    left: nat,
    seg: Seq<Exchange>,
    pv1: Seq<MessageView>,
    max1: nat,
    done: Seq<Exchange>,
)
    requires
        left >= 1,
        delivered(seg) == cross_round(cv, pv),
        any_rebuttal(responses(seg)),
        forall|rest: Seq<Exchange>| #[trigger] later_rounds(cv, pv, left, rest) ==> later_rounds(cv, pv1, max1, done + rest),
    ensures
        forall|rest: Seq<Exchange>|
            #[trigger] later_rounds(cv, responses(seg), (left - 1) as nat, rest) ==> later_rounds(
                cv,
                pv1,
                max1,
                (done + seg) + rest,
            ),
{
    let d = cross_round(cv, pv);
    assert(delivered(seg).len() == seg.len());
    assert forall|rest: Seq<Exchange>|
        #[trigger] later_rounds(cv, responses(seg), (left - 1) as nat, rest) implies later_rounds(
            cv,
            pv1,
            max1,
            (done + seg) + rest,
        ) by {
        assert((seg + rest).take(d.len() as int) =~= seg);
        assert((seg + rest).skip(d.len() as int) =~= rest);
        assert(later_rounds(cv, pv, left, seg + rest));
        assert(done + (seg + rest) =~= (done + seg) + rest);
    }
}

/// Copies the messages of `t` from position `from` on.
fn snapshot(t: &Transcript, from: usize) -> (r: Vec<Message>)
    requires
        from <= t@.len(),
    ensures
        message_views(r@) == t@.skip(from as int),
{
    let mut prior: Vec<Message> = Vec::new();
    let mut k: usize = from;
    while k < t.len()
        invariant
            from <= k <= t@.len(),
            message_views(prior@) == t@.subrange(from as int, k as int),
        decreases t@.len() - k,
    {
        let m = t.get(k).clone();
        let ghost p0 = prior@;
        prior.push(m);
        assert(prior@ == p0.push(m));
        assert(message_views(prior@) =~= message_views(p0).push(m@));
        assert(message_views(prior@) =~= t@.subrange(from as int, k + 1));
        k = k + 1;
    }
    assert(t@.skip(from as int) =~= t@.subrange(from as int, t@.len() as int));
    prior
}

/// A registered agent: the library's echo agent, held as itself so that
/// what it answers is known, or any other backend.
enum Slot {
    Echo(EchoAgent),
    Other(Box<dyn Agent>),
}

impl Slot {
    /// The log of the agent, when it keeps one.
    spec fn log(&self) -> Option<Seq<(MessageView, Result<MessageView, PraxisError>)>> {
        match *self {
            Slot::Other(b) => if b.logs() {
                Some(b.exchanges())
            } else {
                None
            },
            Slot::Echo(_) => None,
        }
    }

    fn respond(&mut self, msg: &Message) -> (r: Result<Message, PraxisError>)
        ensures
            *old(self) is Echo ==> *final(self) == *old(self),
            *old(self) is Other ==> *final(self) is Other,
            old(self).log() is None ==> final(self).log() is None,
            old(self).log() matches Some(l) ==> final(self).log() == Some(l.push((msg@, reply_view(r)))),
            *old(self) matches Slot::Echo(a) ==> (r matches Ok(m) && m@ == echo_reply(a.spec_id()@, msg@)),
    {
        match self {
            Slot::Echo(a) => a.respond(msg),
            Slot::Other(a) => a.respond(msg),
        }
    }
}

/// Executes an [`InteractionGraph`] against a registry of agents.
pub struct Runner {
    graph: InteractionGraph,
    agents: Vec<(AgentId, Slot)>,
    trace: Ghost<Seq<Exchange>>,
    failure: Ghost<Option<Failure>>,
}

/// An agent's failure: the critic asked, the message it was asked, and the
/// error its agent returned.
pub struct Failure {
    pub critic: Seq<char>,
    pub prompt: MessageView,
    pub error: PraxisError,
}

/// Whether messages to `id` go to slot `j` of a registry with ids `keys`:
/// the first slot registered under `id`.
pub open spec fn routes_to(keys: Seq<Seq<char>>, id: Seq<char>, j: int) -> bool {
    0 <= j < keys.len() && keys[j] == id && forall|k: int| 0 <= k < j ==> keys[k] != id
}

/// The calls the exchanges of `trace` made on slot `j`: each message routed
/// to it, with the answer it gave.
pub open spec fn routed(keys: Seq<Seq<char>>, j: int, trace: Seq<Exchange>) -> Seq<(MessageView, Result<MessageView, PraxisError>)>
    decreases trace.len(),
{
    if trace.len() == 0 {
        Seq::empty()
    } else {
        routed(keys, j, trace.drop_last()) + if routes_to(keys, trace.last().critic, j) {
            seq![(trace.last().prompt, Ok::<MessageView, PraxisError>(trace.last().response))]
        } else {
            Seq::empty()
        }
    }
}

/// The call a failure made on slot `j`: the message, with the error the
/// agent returned.
pub open spec fn failed_call(keys: Seq<Seq<char>>, j: int, f: Option<Failure>) -> Seq<(MessageView, Result<MessageView, PraxisError>)> {
    match f {
        Some(f) => if routes_to(keys, f.critic, j) {
            seq![(f.prompt, Err::<MessageView, PraxisError>(f.error))]
        } else {
            Seq::empty()
        },
        None => Seq::empty(),
    }
}

proof fn lemma_routed_concat(keys: Seq<Seq<char>>, j: int, a: Seq<Exchange>, b: Seq<Exchange>)
    ensures
        routed(keys, j, a + b) == routed(keys, j, a) + routed(keys, j, b),
    decreases b.len(),
{
    if b.len() == 0 {
        assert(a + b =~= a);
        assert(routed(keys, j, a) + routed(keys, j, b) =~= routed(keys, j, a));
    } else {
        lemma_routed_concat(keys, j, a, b.drop_last());
        assert((a + b).drop_last() =~= a + b.drop_last());
        assert((a + b).last() == b.last());
    }
}

/// Whether graph `g` delivers nothing: a rounds graph capped at no round.
pub open spec fn runs_nothing(g: InteractionGraph) -> bool {
    g matches InteractionGraph::Rounds { max_rounds, .. } && max_rounds == 0
}

/// `e` reports the first critic of `critics` under whose id no agent is
/// registered.
pub open spec fn first_missing(e: PraxisError, critics: Seq<AgentId>, registered: Seq<Seq<char>>) -> bool {
    exists|k: int|
        0 <= k < critics.len() && e == PraxisError::MissingAgent(critics[k]) && !registered.contains(
            #[trigger] critics[k]@,
        ) && forall|j: int| 0 <= j < k ==> registered.contains(#[trigger] critics[j]@)
}

/// The ids of a registry, in registration order.
spec fn registry_ids(agents: Seq<(AgentId, Slot)>) -> Seq<Seq<char>> {
    agents.map_values(|p: (AgentId, Slot)| p.0@)
}

/// Every agent of a registry is an echo agent registered under its own id.
spec fn all_echo(agents: Seq<(AgentId, Slot)>) -> bool {
    forall|i: int|
        0 <= i < agents.len() ==> ((#[trigger] agents[i]).1 matches Slot::Echo(a) && a.spec_id()@
            == agents[i].0@)
}

/// Every response of `trace` is the echo of the message it answers, given
/// by the critic that received it.
pub open spec fn echo_answered(trace: Seq<Exchange>) -> bool {
    forall|i: int|
        0 <= i < trace.len() ==> (#[trigger] trace[i]).response == echo_reply(trace[i].critic, trace[i].prompt)
}

/// The registry ids after registering `id`: unchanged when `id` is already
/// registered (the agent is replaced in place), else `id` is appended.
pub open spec fn register_id(ids: Seq<Seq<char>>, id: Seq<char>) -> Seq<Seq<char>> {
    if ids.contains(id) {
        ids
    } else {
        ids.push(id)
    }
}

impl Runner {
    /// The graph this runner walks.
    pub closed spec fn spec_graph(&self) -> InteractionGraph {
        self.graph
    }

    /// The ids agents are registered under, in registration order.
    pub closed spec fn registered(&self) -> Seq<Seq<char>> {
        registry_ids(self.agents@)
    }

    /// The exchanges of the last call of [`Runner::execute`].
    pub closed spec fn last_run(&self) -> Seq<Exchange> {
        self.trace@
    }

    /// Whether every registered agent is an echo agent.
    pub closed spec fn echo_only(&self) -> bool {
        all_echo(self.agents@)
    }

    /// Whether an agent returned an error during the last run.
    pub closed spec fn agent_failed(&self) -> bool {
        self.failure@ is Some
    }

    /// The log of the agent in registry slot `j`, when it keeps one.
    pub closed spec fn agent_log(&self, j: int) -> Option<Seq<(MessageView, Result<MessageView, PraxisError>)>> {
        if 0 <= j < self.agents@.len() {
            self.agents@[j].1.log()
        } else {
            None
        }
    }

    /// The agent failure that ended the last run, if one did.
    pub closed spec fn failure(&self) -> Option<Failure> {
        self.failure@
    }

    /// Creates a runner over the given graph with an empty agent registry.
    pub fn new(graph: InteractionGraph) -> (r: Self)
        ensures
            r.spec_graph() == graph,
            r.registered() == Seq::<Seq<char>>::empty(),
            r.echo_only(),
    {
        let r = Runner {
            graph,
            agents: Vec::new(),
            trace: Ghost(Seq::empty()),
            failure: Ghost(None),
        };
        assert(r.registered() =~= Seq::<Seq<char>>::empty());
        r
    }

    /// Registers an agent under the id it reports; a later agent with the
    /// same id replaces the earlier one. An echo agent is kept as itself, so
    /// that its answers are known.
    pub fn with_agent<A: Agent + 'static>(self, agent: A) -> (r: Self)
        ensures
            r.spec_graph() == self.spec_graph(),
            exists|id: Seq<char>| r.registered() == #[trigger] register_id(self.registered(), id),
            agent.id_known() ==> r.registered() == register_id(self.registered(), agent.agent_id()),
            self.echo_only() && agent.echoes() ==> r.echo_only(),
            agent.id_known() ==> forall|j: int|
                0 <= j < self.registered().len() && self.registered()[j] != agent.agent_id() ==> #[trigger] r.agent_log(j)
                    == self.agent_log(j),
    {
        let mut s = self;
        let id = agent.id().clone();
        let ghost idv = id@;
        match agent.as_echo() {
            Some(e) => {
                s.register(id, Slot::Echo(e));
            },
            None => {
                let boxed: Box<dyn Agent> = Box::new(agent);
                s.register(id, Slot::Other(boxed));
            },
        }
        assert(s.registered() == register_id(self.registered(), idv));
        s
    }

    /// Registers `agent` under `id`, replacing an agent already registered
    /// under that id.
    fn register(&mut self, id: AgentId, agent: Slot)
        ensures
            final(self).spec_graph() == old(self).spec_graph(),
            final(self).registered() == register_id(old(self).registered(), id@),
            (old(self).echo_only() && (agent matches Slot::Echo(a) && a.spec_id()@ == id@)) ==> final(self).echo_only(),
            forall|j: int|
                0 <= j < old(self).registered().len() && old(self).registered()[j] != id@ ==> #[trigger] final(self).agent_log(j)
                    == old(self).agent_log(j),
    {
        let ghost before = self.agents@;
        let ghost idv = id@;
        let found = self.lookup(&id);
        let entry = (id, agent);
        assert(entry.0@ == idv);
        match found {
            Some(i) => {
                let _old = self.agents.remove(i);
                self.agents.insert(i, entry);
                proof {
                    assert(self.agents@ =~= before.update(i as int, entry));
                    assert forall|j: int| 0 <= j < before.len() implies #[trigger] registry_ids(self.agents@)[j] == registry_ids(before)[j] by {
                        if j == i {
                            assert(registry_ids(before)[j] == idv);
                        }
                    }
                    assert(self.registered() =~= registry_ids(before));
                }
            },
            None => {
                self.agents.push(entry);
                proof {
                    assert(self.agents@ =~= before.push(entry));
                    assert(self.registered() =~= registry_ids(before).push(idv));
                    assert(self.agents@[before.len() as int] == entry);
                }
            },
        }
    }

    fn lookup(&self, id: &AgentId) -> (r: Option<usize>)
        ensures
            match r {
                Some(i) => i < self.agents@.len() && routes_to(self.registered(), id@, i as int),
                None => !self.registered().contains(id@),
            },
    {
        let mut i: usize = 0;
        while i < self.agents.len()
            invariant
                i <= self.agents@.len(),
                forall|j: int| 0 <= j < i ==> self.registered()[j] != id@,
            decreases self.agents.len() - i,
        {
            if self.agents[i].0 == *id {
                return Some(i);
            }
            i = i + 1;
        }
        None
    }

    /// Delivers `prompt` to the agent registered as `critic`.
    fn deliver(&mut self, critic: &AgentId, prompt: &Message) -> (r: Result<Message, PraxisError>)
        ensures
            final(self).spec_graph() == old(self).spec_graph(),
            final(self).registered() == old(self).registered(),
            final(self).agent_failed() == (old(self).agent_failed() || (r is Err && old(self).registered().contains(critic@))),
            old(self).registered().contains(critic@) ==> (r matches Err(e) ==> final(self).failure() == Some(
                Failure { critic: critic@, prompt: prompt@, error: e },
            )),
            r is Ok || !old(self).registered().contains(critic@) ==> final(self).failure() == old(self).failure(),
            old(self).echo_only() ==> final(self).failure() == old(self).failure(),
            final(self).echo_only() == old(self).echo_only(),
            old(self).echo_only() && old(self).registered().contains(critic@) ==> (r matches Ok(m) && m@
                == echo_reply(critic@, prompt@)),
            forall|j: int|
                #[trigger] old(self).agent_log(j) is Some ==> final(self).agent_log(j) == Some(
                    old(self).agent_log(j).unwrap() + if routes_to(old(self).registered(), critic@, j) {
                        seq![(prompt@, reply_view(r))]
                    } else {
                        Seq::empty()
                    },
                ),
            match r {
                Ok(m) => final(self).last_run() == old(self).last_run().push(
                    Exchange { critic: critic@, prompt: prompt@, response: m@ },
                ) && old(self).registered().contains(critic@),
                Err(e) => final(self).last_run() == old(self).last_run() && (old(self).registered().contains(critic@) || e == PraxisError::MissingAgent(*critic)),
            },
    {
        match self.lookup(critic) {
            None => Err(PraxisError::missing_agent(critic.clone())),
            Some(i) => {
                let ghost before = self.agents@;
                let (id, mut agent) = self.agents.remove(i);
                let ghost idv = id@;
                assert(idv == before[i as int].0@);
                let res = agent.respond(prompt);
                let entry = (id, agent);
                assert(entry.0@ == idv);
                self.agents.insert(i, entry);
                proof {
                    assert(self.agents@ =~= before.update(i as int, entry));
                    assert forall|j: int| 0 <= j < before.len() implies #[trigger] registry_ids(self.agents@)[j] == registry_ids(before)[j] by {
                        if j == i {
                            assert(registry_ids(before)[j] == idv);
                        }
                    }
                    assert(self.registered() =~= registry_ids(before));
                    assert(registry_ids(before)[i as int] == critic@);
                    if all_echo(before) {
                        assert(before[i as int].1 is Echo);
                        assert forall|j: int| 0 <= j < self.agents@.len() implies ((#[trigger] self.agents@[j]).1 matches Slot::Echo(a) && a.spec_id()@ == self.agents@[j].0@) by {
                            assert(before[j].1 matches Slot::Echo(a) && a.spec_id()@ == before[j].0@);
                        }
                    } else {
                        let j = choose|j: int| 0 <= j < before.len() && !((#[trigger] before[j]).1 matches Slot::Echo(a) && a.spec_id()@ == before[j].0@);
                        assert(!(self.agents@[j].1 matches Slot::Echo(a) && a.spec_id()@ == self.agents@[j].0@));
                    }
                }
                match res {
                    Ok(m) => {
                        self.trace = Ghost(
                            self.trace@.push(Exchange { critic: critic@, prompt: prompt@, response: m@ }),
                        );
                        Ok(m)
                    },
                    Err(e) => {
                        self.failure = Ghost(Some(Failure { critic: critic@, prompt: prompt@, error: e }));
                        Err(e)
                    },
                }
            },
        }
    }
    /// Sends the subject to each critic in order (the first round).
    fn run_first_round(&mut self, critics: &Vec<AgentId>, text: &str, t: &mut Transcript) -> (r: Result<(), PraxisError>)
        ensures
            final(self).spec_graph() == old(self).spec_graph(),
            final(self).registered() == old(self).registered(),
            old(self).agent_failed() ==> final(self).agent_failed(),
            old(self).last_run().len() <= final(self).last_run().len(),
            final(self).last_run().take(old(self).last_run().len() as int) == old(self).last_run(),
            final(t)@ == old(t)@ + responses(final(self).last_run().skip(old(self).last_run().len() as int)),
            match r {
                Ok(_) => {
                    &&& final(self).agent_failed() == old(self).agent_failed()
                    &&& delivered(final(self).last_run().skip(old(self).last_run().len() as int))
                        == first_round(id_views(critics@), text@)
                },
                Err(e) => final(self).agent_failed() || missing_critic(e, critics@, old(self).registered()),
            },
            all_registered(critics@, old(self).registered()) && !final(self).agent_failed() ==> r is Ok,
            final(self).echo_only() == old(self).echo_only(),
            old(self).echo_only() ==> final(self).failure() == old(self).failure(),
            old(self).echo_only() && all_registered(critics@, old(self).registered()) ==> (r is Ok
                && echo_answered(final(self).last_run().skip(old(self).last_run().len() as int))),
            r is Ok ==> all_registered(critics@, old(self).registered()),
            r is Err ==> delivered(final(self).last_run().skip(old(self).last_run().len() as int))
                == first_round(id_views(critics@), text@).take(
                final(self).last_run().len() - old(self).last_run().len(),
            ),
            !old(self).agent_failed() ==> (r matches Err(e) ==> ((final(self).failure() matches Some(f)
                && f.error == e && old(self).registered().contains(f.critic)
                && final(self).last_run().len() - old(self).last_run().len() < critics@.len()
                && first_round(id_views(critics@), text@)[final(self).last_run().len()
                - old(self).last_run().len()] == (f.critic, f.prompt)) || (final(self).failure() is None
                && first_missing(e, critics@, old(self).registered())))),
            !old(self).agent_failed() ==> forall|j: int|
                #[trigger] old(self).agent_log(j) is Some ==> final(self).agent_log(j) == Some(
                    old(self).agent_log(j).unwrap() + routed(
                        old(self).registered(),
                        j,
                        final(self).last_run().skip(old(self).last_run().len() as int),
                    ) + failed_call(old(self).registered(), j, final(self).failure()),
                ),
    {
        let ghost t0 = self.trace@;
        let ghost tr0 = t@;
        let ghost cv = id_views(critics@);
        let ghost mut seg: Seq<Exchange> = Seq::empty();
        let system = AgentId::new(SYSTEM_AGENT);
        let mut i: usize = 0;
        while i < critics.len()
            invariant
                i <= critics.len(),
                cv == id_views(critics@),
                t0 == old(self).last_run(),
                tr0 == old(t)@,
                system@ == "system"@,
                self.spec_graph() == old(self).spec_graph(),
                self.registered() == old(self).registered(),
                self.agent_failed() == old(self).agent_failed(),
                self.failure() == old(self).failure(),
                self.echo_only() == old(self).echo_only(),
                old(self).echo_only() ==> echo_answered(seg),
                self.trace@ == t0 + seg,
                t@ == tr0 + responses(seg),
                delivered(seg) == first_round(cv, text@).take(i as int),
                seg.len() == i,
                forall|j: int| 0 <= j < i ==> old(self).registered().contains(#[trigger] critics@[j]@),
                forall|j: int|
                    #[trigger] old(self).agent_log(j) is Some ==> self.agent_log(j) == Some(
                        old(self).agent_log(j).unwrap() + routed(old(self).registered(), j, seg),
                    ),
            decreases critics.len() - i,
        {
            let prompt = Message::new(system.clone(), Some(critics[i].clone()), MessageKind::Prompt, text);
            assert(prompt@ == subject_prompt(critics@[i as int]@, text@));
            let ghost s0: Runner = *self;
            match self.deliver(&critics[i], &prompt) {
                Ok(m) => {
                    let ghost ex = Exchange { critic: critics@[i as int]@, prompt: prompt@, response: m@ };
                    proof {
                        if old(self).echo_only() {
                            assert(echo_answered(seq![ex]));
                            lemma_echo_answered_concat(seg, seq![ex]);
                            assert(seg + seq![ex] =~= seg.push(ex));
                        }
                        lemma_delivered_push(seg, ex);
                        assert(first_round(cv, text@).take(i + 1) =~= first_round(cv, text@).take(
                            i as int,
                        ).push((ex.critic, ex.prompt)));
                        assert(t0 + seg.push(ex) =~= (t0 + seg).push(ex));
                        assert(seg.push(ex).drop_last() =~= seg);
                        assert forall|j: int| #[trigger] old(self).agent_log(j) is Some implies self.agent_log(j) == Some(
                            old(self).agent_log(j).unwrap() + routed(old(self).registered(), j, seg.push(ex)),
                        ) by {
                            assert(s0.agent_log(j) is Some);
                        }
                        seg = seg.push(ex);
                    }
                    t.push(m);
                    assert(t@ =~= tr0 + responses(seg));
                },
                Err(e) => {
                    proof {
                        assert(self.trace@.take(t0.len() as int) =~= t0);
                        assert(self.trace@.skip(t0.len() as int) =~= seg);
                        if !self.agent_failed() {
                            assert(missing_critic(e, critics@, old(self).registered()));
                        }
                        if old(self).echo_only() && all_registered(critics@, old(self).registered()) {
                            assert(old(self).registered().contains(critics@[i as int]@));
                        }
                        assert(first_round(cv, text@)[i as int] == (critics@[i as int]@, prompt@));
                        if !old(self).registered().contains(critics@[i as int]@) {
                            assert(first_missing(e, critics@, old(self).registered()));
                        }
                        if !old(self).agent_failed() {
                            assert forall|j: int| #[trigger] old(self).agent_log(j) is Some implies self.agent_log(j) == Some(
                                old(self).agent_log(j).unwrap() + routed(old(self).registered(), j, seg)
                                    + failed_call(old(self).registered(), j, self.failure()),
                            ) by {
                                assert(s0.agent_log(j) is Some);
                                if !old(self).registered().contains(critics@[i as int]@) {
                                    assert(!routes_to(old(self).registered(), critics@[i as int]@, j));
                                }
                            }
                        }
                    }
                    return Err(e);
                },
            }
            i = i + 1;
        }
        proof {
            assert(self.trace@.take(t0.len() as int) =~= t0);
            assert(self.trace@.skip(t0.len() as int) =~= seg);
            assert(first_round(cv, text@).take(critics@.len() as int) =~= first_round(cv, text@));
            assert forall|j: int| 0 <= j < critics@.len() implies old(self).registered().contains(#[trigger] critics@[j]@) by {}
            if !old(self).agent_failed() {
                assert forall|j: int| #[trigger] old(self).agent_log(j) is Some implies self.agent_log(j) == Some(
                    old(self).agent_log(j).unwrap() + routed(old(self).registered(), j, seg)
                        + failed_call(old(self).registered(), j, self.failure()),
                ) by {
                    assert(self.failure() is None);
                    let x = old(self).agent_log(j).unwrap() + routed(old(self).registered(), j, seg);
                    assert(x + failed_call(old(self).registered(), j, self.failure()) =~= x);
                }
            }
        }
        Ok(())
    }
    /// Routes to each critic, in order, the messages of `prior` from the
    /// other critics (a later round). Answers whether a response was a
    /// rebuttal.
    fn run_cross_round(&mut self, critics: &Vec<AgentId>, prior: &Vec<Message>, t: &mut Transcript) -> (r: Result<bool, PraxisError>)
        ensures
            final(self).spec_graph() == old(self).spec_graph(),
            final(self).registered() == old(self).registered(),
            old(self).agent_failed() ==> final(self).agent_failed(),
            old(self).last_run().len() <= final(self).last_run().len(),
            final(self).last_run().take(old(self).last_run().len() as int) == old(self).last_run(),
            final(t)@ == old(t)@ + responses(final(self).last_run().skip(old(self).last_run().len() as int)),
            match r {
                Ok(b) => {
                    &&& final(self).agent_failed() == old(self).agent_failed()
                    &&& delivered(final(self).last_run().skip(old(self).last_run().len() as int))
                        == cross_round(id_views(critics@), message_views(prior@))
                    &&& b == any_rebuttal(responses(final(self).last_run().skip(old(self).last_run().len() as int)))
                },
                Err(e) => final(self).agent_failed() || missing_critic(e, critics@, old(self).registered()),
            },
            all_registered(critics@, old(self).registered()) && !final(self).agent_failed() ==> r is Ok,
            final(self).echo_only() == old(self).echo_only(),
            old(self).echo_only() ==> final(self).failure() == old(self).failure(),
            old(self).echo_only() && all_registered(critics@, old(self).registered()) ==> (r is Ok
                && echo_answered(final(self).last_run().skip(old(self).last_run().len() as int))),
            !old(self).agent_failed() && all_registered(critics@, old(self).registered()) ==> (r matches Err(e)
                ==> (final(self).failure() matches Some(f) && f.error == e && old(self).registered().contains(f.critic))),
            !old(self).agent_failed() ==> forall|j: int|
                #[trigger] old(self).agent_log(j) is Some ==> final(self).agent_log(j) == Some(
                    old(self).agent_log(j).unwrap() + routed(
                        old(self).registered(),
                        j,
                        final(self).last_run().skip(old(self).last_run().len() as int),
                    ) + failed_call(old(self).registered(), j, final(self).failure()),
                ),
    {
        let ghost t0 = self.trace@;
        let ghost tr0 = t@;
        let ghost cv = id_views(critics@);
        let ghost pv = message_views(prior@);
        let ghost mut seg: Seq<Exchange> = Seq::empty();
        let mut seen = false;
        let mut i: usize = 0;
        while i < critics.len()
            invariant
                i <= critics.len(),
                cv == id_views(critics@),
                pv == message_views(prior@),
                t0 == old(self).last_run(),
                tr0 == old(t)@,
                self.spec_graph() == old(self).spec_graph(),
                self.registered() == old(self).registered(),
                self.agent_failed() == old(self).agent_failed(),
                self.failure() == old(self).failure(),
                self.echo_only() == old(self).echo_only(),
                old(self).echo_only() ==> echo_answered(seg),
                self.trace@ == t0 + seg,
                t@ == tr0 + responses(seg),
                delivered(seg) == cross_round(cv.take(i as int), pv),
                seen == any_rebuttal(responses(seg)),
                forall|k: int|
                    #[trigger] old(self).agent_log(k) is Some ==> self.agent_log(k) == Some(
                        old(self).agent_log(k).unwrap() + routed(old(self).registered(), k, seg),
                    ),
            decreases critics.len() - i,
        {
            let mut j: usize = 0;
            while j < prior.len()
                invariant
                    i < critics.len(),
                    j <= prior.len(),
                    cv == id_views(critics@),
                    pv == message_views(prior@),
                    t0 == old(self).last_run(),
                    tr0 == old(t)@,
                    self.spec_graph() == old(self).spec_graph(),
                    self.registered() == old(self).registered(),
                    self.agent_failed() == old(self).agent_failed(),
                    self.failure() == old(self).failure(),
                    self.echo_only() == old(self).echo_only(),
                    old(self).echo_only() ==> echo_answered(seg),
                    self.trace@ == t0 + seg,
                    t@ == tr0 + responses(seg),
                    delivered(seg) == cross_round(cv.take(i as int), pv) + others(cv[i as int], pv.take(j as int)),
                    seen == any_rebuttal(responses(seg)),
                    forall|k: int|
                        #[trigger] old(self).agent_log(k) is Some ==> self.agent_log(k) == Some(
                            old(self).agent_log(k).unwrap() + routed(old(self).registered(), k, seg),
                        ),
                decreases prior.len() - j,
            {
                proof {
                    assert(pv.take(j + 1).drop_last() =~= pv.take(j as int));
                }
                if *prior[j].sender() == critics[i] {
                    assert(delivered(seg) =~= cross_round(cv.take(i as int), pv) + others(cv[i as int], pv.take(j + 1)));
                } else {
                    let ghost s0: Runner = *self;
                    match self.deliver(&critics[i], &prior[j]) {
                        Ok(m) => {
                            let ghost ex = Exchange { critic: cv[i as int], prompt: pv[j as int], response: m@ };
                            proof {
                                if old(self).echo_only() {
                                    assert(echo_answered(seq![ex]));
                                    lemma_echo_answered_concat(seg, seq![ex]);
                                    assert(seg + seq![ex] =~= seg.push(ex));
                                }
                                lemma_delivered_push(seg, ex);
                                assert(t0 + seg.push(ex) =~= (t0 + seg).push(ex));
                                assert(delivered(seg.push(ex)) =~= cross_round(cv.take(i as int), pv) + others(cv[i as int], pv.take(j + 1)));
                                assert(seg.push(ex).drop_last() =~= seg);
                                assert forall|k: int| #[trigger] old(self).agent_log(k) is Some implies self.agent_log(k) == Some(
                                    old(self).agent_log(k).unwrap() + routed(old(self).registered(), k, seg.push(ex)),
                                ) by {
                                    assert(s0.agent_log(k) is Some);
                                }
                                seg = seg.push(ex);
                            }
                            if m.kind() == MessageKind::Rebuttal {
                                seen = true;
                            }
                            t.push(m);
                            assert(t@ =~= tr0 + responses(seg));
                        },
                        Err(e) => {
                            proof {
                                assert(self.trace@.take(t0.len() as int) =~= t0);
                                assert(self.trace@.skip(t0.len() as int) =~= seg);
                                if !self.agent_failed() {
                                    assert(missing_critic(e, critics@, old(self).registered()));
                                }
                                if old(self).echo_only() && all_registered(critics@, old(self).registered()) {
                                    assert(old(self).registered().contains(critics@[i as int]@));
                                }
                                if !old(self).agent_failed() {
                                    assert forall|k: int| #[trigger] old(self).agent_log(k) is Some implies self.agent_log(k) == Some(
                                        old(self).agent_log(k).unwrap() + routed(old(self).registered(), k, seg)
                                            + failed_call(old(self).registered(), k, self.failure()),
                                    ) by {
                                        assert(s0.agent_log(k) is Some);
                                        if !old(self).registered().contains(critics@[i as int]@) {
                                            assert(!routes_to(old(self).registered(), critics@[i as int]@, k));
                                        }
                                    }
                                }
                            }
                            return Err(e);
                        },
                    }
                }
                j = j + 1;
            }
            proof {
                assert(pv.take(prior@.len() as int) =~= pv);
                assert(cv.take(i + 1).drop_last() =~= cv.take(i as int));
            }
            i = i + 1;
        }
        proof {
            assert(self.trace@.take(t0.len() as int) =~= t0);
            assert(self.trace@.skip(t0.len() as int) =~= seg);
            assert(cv.take(critics@.len() as int) =~= cv);
            if !old(self).agent_failed() {
                assert forall|k: int| #[trigger] old(self).agent_log(k) is Some implies self.agent_log(k) == Some(
                    old(self).agent_log(k).unwrap() + routed(old(self).registered(), k, seg)
                        + failed_call(old(self).registered(), k, self.failure()),
                ) by {
                    assert(self.failure() is None);
                    let x = old(self).agent_log(k).unwrap() + routed(old(self).registered(), k, seg);
                    assert(x + failed_call(old(self).registered(), k, self.failure()) =~= x);
                }
            }
        }
        Ok(seen)
    }
    /// Executes the graph over `subject` and returns the transcript: the
    /// responses of the run, in the order they were given.
    ///
    /// Fails with the error of the first agent that fails to respond, or
    /// with [`PraxisError::MissingAgent`] when a message is due to a critic
    /// with no registered agent.
    pub fn execute(&mut self, subject: &Subject) -> (r: Result<Transcript, PraxisError>)
        ensures
            final(self).spec_graph() == old(self).spec_graph(),
            final(self).registered() == old(self).registered(),
            match r {
                Ok(t) => {
                    &&& graph_run(old(self).spec_graph(), subject@.text, final(self).last_run())
                    &&& t@ == responses(final(self).last_run())
                    &&& !final(self).agent_failed()
                },
                Err(e) => final(self).agent_failed() || missing_critic(
                    e,
                    graph_critics(old(self).spec_graph()),
                    old(self).registered(),
                ),
            },
            all_registered(graph_critics(old(self).spec_graph()), old(self).registered())
                && !final(self).agent_failed() ==> r is Ok,
            final(self).echo_only() == old(self).echo_only(),
            old(self).echo_only() && all_registered(graph_critics(old(self).spec_graph()), old(self).registered())
                ==> (r is Ok && echo_answered(final(self).last_run())),
            old(self).echo_only() ==> final(self).failure() is None,
            runs_nothing(old(self).spec_graph()) ==> r is Ok,
            r is Ok ==> runs_nothing(old(self).spec_graph()) || all_registered(
                graph_critics(old(self).spec_graph()),
                old(self).registered(),
            ),
            r matches Err(e) ==> ((final(self).failure() matches Some(f) && f.error == e
                && old(self).registered().contains(f.critic)) || (final(self).failure() is None
                && first_missing(e, graph_critics(old(self).spec_graph()), old(self).registered()))),
            old(self).spec_graph() is Parallel ==> (r is Err ==> (delivered(final(self).last_run())
                == first_round(id_views(graph_critics(old(self).spec_graph())), subject@.text).take(
                final(self).last_run().len() as int,
            ) && (final(self).failure() matches Some(f) ==> (final(self).last_run().len()
                < graph_critics(old(self).spec_graph()).len() && first_round(
                id_views(graph_critics(old(self).spec_graph())),
                subject@.text,
            )[final(self).last_run().len() as int] == (f.critic, f.prompt))))),
            forall|j: int|
                #[trigger] old(self).agent_log(j) is Some ==> final(self).agent_log(j) == Some(
                    old(self).agent_log(j).unwrap() + routed(old(self).registered(), j, final(self).last_run())
                        + failed_call(old(self).registered(), j, final(self).failure()),
                ),
    {
        self.trace = Ghost(Seq::empty());
        self.failure = Ghost(None);
        let ghost keys = self.registered();
        let ghost s1: Runner = *self;
        assert(forall|j: int| s1.agent_log(j) == old(self).agent_log(j));
        let critics = clone_ids(self.graph.critics());
        let ghost cv = id_views(critics@);
        let mut t = Transcript::new();
        match self.graph.max_rounds() {
            None => {
                match self.run_first_round(&critics, subject.text(), &mut t) {
                    Ok(_) => {
                        assert(self.trace@.skip(0) =~= self.trace@);
                        assert(t@ =~= responses(self.trace@));
                        assert forall|j: int| #[trigger] old(self).agent_log(j) is Some implies self.agent_log(j) == Some(
                            old(self).agent_log(j).unwrap() + routed(keys, j, self.trace@)
                                + failed_call(keys, j, self.failure()),
                        ) by {
                            assert(s1.agent_log(j) is Some);
                        }
                        Ok(t)
                    },
                    Err(e) => {
                        assert(self.trace@.skip(0) =~= self.trace@);
                        assert forall|j: int| #[trigger] old(self).agent_log(j) is Some implies self.agent_log(j) == Some(
                            old(self).agent_log(j).unwrap() + routed(keys, j, self.trace@)
                                + failed_call(keys, j, self.failure()),
                        ) by {
                            assert(s1.agent_log(j) is Some);
                        }
                        Err(e)
                    },
                }
            },
            Some(max_rounds) => {
                assert(self.graph matches InteractionGraph::Rounds { max_rounds: m, .. } && m == max_rounds);
                if max_rounds == 0 {
                    proof {
                        assert forall|j: int| #[trigger] old(self).agent_log(j) is Some implies self.agent_log(j) == Some(
                            old(self).agent_log(j).unwrap() + routed(keys, j, self.trace@)
                                + failed_call(keys, j, self.failure()),
                        ) by {
                            let x = old(self).agent_log(j).unwrap();
                            assert(x + routed(keys, j, self.trace@) + failed_call(keys, j, self.failure()) =~= x);
                        }
                    }
                    return Ok(t);
                }
                match self.run_first_round(&critics, subject.text(), &mut t) {
                    Ok(_) => {},
                    Err(e) => {
                        assert(self.trace@.skip(0) =~= self.trace@);
                    assert forall|j: int| #[trigger] old(self).agent_log(j) is Some implies self.agent_log(j) == Some(
                        old(self).agent_log(j).unwrap() + routed(keys, j, self.trace@)
                            + failed_call(keys, j, self.failure()),
                    ) by {
                        assert(s1.agent_log(j) is Some);
                    }
                        return Err(e);
                    },
                }
                assert(self.trace@.skip(0) =~= self.trace@);
                proof {
                    assert forall|j: int| #[trigger] old(self).agent_log(j) is Some implies self.agent_log(j) == Some(
                        old(self).agent_log(j).unwrap() + routed(keys, j, self.trace@),
                    ) by {
                        assert(s1.agent_log(j) is Some);
                        let x = old(self).agent_log(j).unwrap() + routed(keys, j, self.trace@);
                        assert(x + failed_call(keys, j, self.failure()) =~= x);
                    }
                }
                let ghost first = self.trace@;
                let ghost pv1 = responses(first);
                let ghost n = critics@.len();
                assert(first.len() == n) by {
                    assert(delivered(first).len() == first_round(cv, subject@.text).len());
                }
                assert(t@ =~= pv1);
                let ghost mut done: Seq<Exchange> = Seq::empty();
                let ghost mut pv_cur = pv1;
                let mut left: usize = max_rounds - 1;
                let mut prev_start: usize = 0;
                let mut stop = false;
                let ghost mut gleft: nat = left as nat;
                while left > 0 && !stop
                    invariant
                        cv == id_views(critics@),
                        critics@ == graph_critics(old(self).spec_graph()),
                        self.spec_graph() == old(self).spec_graph(),
                        self.registered() == old(self).registered(),
                        !self.agent_failed(),
                        keys == old(self).registered(),
                        forall|j: int|
                            #[trigger] old(self).agent_log(j) is Some ==> self.agent_log(j) == Some(
                                old(self).agent_log(j).unwrap() + routed(keys, j, self.trace@),
                            ),
                        all_registered(critics@, old(self).registered()),
                        !runs_nothing(old(self).spec_graph()),
                        !(old(self).spec_graph() is Parallel),
                        self.echo_only() == old(self).echo_only(),
                        old(self).echo_only() && all_registered(critics@, old(self).registered())
                            ==> echo_answered(self.trace@),
                        left < max_rounds,
                        gleft == left as nat,
                        self.trace@ == first + done,
                        t@ == responses(self.trace@),
                        prev_start <= t@.len(),
                        !stop ==> t@.skip(prev_start as int) == pv_cur,
                        stop ==> later_rounds(cv, pv1, (max_rounds - 1) as nat, done),
                        !stop ==> forall|rest: Seq<Exchange>|
                            #[trigger] later_rounds(cv, pv_cur, gleft, rest) ==> later_rounds(
                                cv,
                                pv1,
                                (max_rounds - 1) as nat,
                                done + rest,
                            ),
                    decreases left,
                {
                    let prior = snapshot(&t, prev_start);
                    let start = t.len();
                    let ghost before = self.trace@;
                    match self.run_cross_round(&critics, &prior, &mut t) {
                        Ok(seen) => {
                            let ghost seg = self.trace@.skip(before.len() as int);
                            proof {
                                assert(self.trace@ =~= before + seg);
                                assert forall|j: int| #[trigger] old(self).agent_log(j) is Some implies self.agent_log(j) == Some(
                                    old(self).agent_log(j).unwrap() + routed(keys, j, self.trace@),
                                ) by {
                                    lemma_routed_concat(keys, j, before, seg);
                                    let x = old(self).agent_log(j).unwrap() + routed(keys, j, before) + routed(keys, j, seg);
                                    assert(x + failed_call(keys, j, self.failure()) =~= x);
                                }
                                if old(self).echo_only() && all_registered(critics@, old(self).registered()) {
                                    lemma_echo_answered_concat(before, seg);
                                }
                                assert(first + (done + seg) =~= self.trace@);
                                assert(t@.skip(start as int) =~= responses(seg));
                            }
                            if !seen {
                                proof {
                                    lemma_round_stops(cv, pv_cur, gleft, seg, pv1, (max_rounds - 1) as nat, done);
                                    done = done + seg;
                                }
                                stop = true;
                            } else {
                                proof {
                                    lemma_round_continues(cv, pv_cur, gleft, seg, pv1, (max_rounds - 1) as nat, done);
                                    done = done + seg;
                                    pv_cur = responses(seg);
                                }
                                prev_start = start;
                            }
                            left = left - 1;
                            proof {
                                gleft = (gleft - 1) as nat;
                            }
                        },
                        Err(e) => {
                            proof {
                                let seg = self.trace@.skip(before.len() as int);
                                assert(self.trace@ =~= before + seg);
                                assert forall|j: int| #[trigger] old(self).agent_log(j) is Some implies self.agent_log(j) == Some(
                                    old(self).agent_log(j).unwrap() + routed(keys, j, self.trace@)
                                        + failed_call(keys, j, self.failure()),
                                ) by {
                                    lemma_routed_concat(keys, j, before, seg);
                                }
                            }
                            return Err(e);
                        },
                    }
                }
                proof {
                    if !stop {
                        assert(later_rounds(cv, pv_cur, 0, Seq::<Exchange>::empty()));
                        assert(done + Seq::<Exchange>::empty() =~= done);
                    }
                    assert(self.trace@.take(n as int) =~= first);
                    assert(self.trace@.skip(n as int) =~= done);
                    assert forall|j: int| #[trigger] old(self).agent_log(j) is Some implies self.agent_log(j) == Some(
                        old(self).agent_log(j).unwrap() + routed(keys, j, self.trace@)
                            + failed_call(keys, j, self.failure()),
                    ) by {
                        let x = old(self).agent_log(j).unwrap() + routed(keys, j, self.trace@);
                        assert(x + failed_call(keys, j, self.failure()) =~= x);
                    }
                }
                Ok(t)
            },
        }
    }
}

} // verus!
