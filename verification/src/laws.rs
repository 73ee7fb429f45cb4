//! Laws that relate several operations of the library.

use crate::backend::credentials::{keys, lookup, position, remove_name, unique_names, upsert, lemma_position};
use crate::error::{code_of, kind_of, PraxisError};
use crate::message::{kind_label, kind_of_label, MessageKind, MessageView};
use crate::persona::{panel_name, panel_of_name, Panel};
use crate::report::{by_severity_desc, critique_findings, of_severity, severity_rank, FindingView, Severity};
use crate::runner::{delivered, first_round, later_rounds, parallel_run, responses, rounds_run, subject_prompt, Exchange};
use crate::summary::{block_finding, close_fence, fenced_blocks, findings_of_blocks, find_from, open_fence, parsed_findings};
use crate::text::next_char;
use crate::agent_info::slot_of;
use crate::backend::roster::{roster_of, seeded_picks, ConfigView};
use crate::cli::critique::{asked_in_order, fallback_order, fallback_run, Ask};
use crate::persona::PersonaView;
use vstd::prelude::*;

verus! {

/// Every message kind reads back from its label.
pub proof fn lemma_kind_label_round_trip(k: MessageKind)
    ensures
        kind_of_label(kind_label(k)) == Some(k),
{
    reveal_strlit("prompt");
    reveal_strlit("critique");
    reveal_strlit("rebuttal");
    reveal_strlit("question");
    reveal_strlit("concession");
    reveal_strlit("verdict");
    let l = kind_label(k);
    assert(l.len() > 0);
    if l != "prompt"@ {
        assert(l[0] != "prompt"@[0] || l.len() != "prompt"@.len());
    }
    if k != MessageKind::Critique {
        assert(l[0] != "critique"@[0] || l.len() != "critique"@.len());
    }
    if k != MessageKind::Rebuttal {
        assert(l[0] != "rebuttal"@[0] || l.len() != "rebuttal"@.len());
    }
    if k != MessageKind::Question {
        assert(l[0] != "question"@[0] || l.len() != "question"@.len());
    }
    if k != MessageKind::Concession {
        assert(l[0] != "concession"@[0] || l.len() != "concession"@.len());
    }
}

/// Every built-in panel reads back from its canonical name.
pub proof fn lemma_panel_name_round_trip(p: Panel)
    ensures
        panel_of_name(panel_name(p)) == Some(p),
{
    reveal_strlit("default");
    reveal_strlit("duo");
    reveal_strlit("panel");
    let n = panel_name(p);
    if p != Panel::Default {
        assert(n[0] != "default"@[0] || n.len() != "default"@.len());
    }
    if p != Panel::Duo {
        assert(n[0] != "duo"@[0] || n.len() != "duo"@.len());
    }
}

/// Errors with the same exit code are of the same kind: each variant has an
/// exit code of its own.
pub proof fn lemma_exit_codes_distinct(e1: PraxisError, e2: PraxisError)
    ensures
        code_of(e1) == code_of(e2) ==> kind_of(e1) == kind_of(e2),
{
}

/// Every finding `of_severity` keeps has that severity.
pub proof fn lemma_of_severity_all(fs: Seq<FindingView>, s: Severity)
    ensures
        forall|i: int| 0 <= i < of_severity(fs, s).len() ==> (#[trigger] of_severity(fs, s)[i]).severity == s,
    decreases fs.len(),
{
    if fs.len() > 0 {
        lemma_of_severity_all(fs.drop_last(), s);
        let prev = of_severity(fs.drop_last(), s);
        let tail = if fs.last().severity == s {
            seq![fs.last()]
        } else {
            Seq::empty()
        };
        assert(of_severity(fs, s) == prev + tail);
        assert forall|i: int| 0 <= i < of_severity(fs, s).len() implies (#[trigger] of_severity(fs, s)[i]).severity == s by {
            if i < prev.len() {
                assert(of_severity(fs, s)[i] == prev[i]);
            }
        }
    }
}

/// `of_severity` distributes over concatenation.
proof fn lemma_of_severity_concat(a: Seq<FindingView>, b: Seq<FindingView>, s: Severity)
    ensures
        of_severity(a + b, s) == of_severity(a, s) + of_severity(b, s),
    decreases b.len(),
{
    if b.len() == 0 {
        assert(a + b =~= a);
        assert(of_severity(a, s) + of_severity(b, s) =~= of_severity(a, s));
    } else {
        lemma_of_severity_concat(a, b.drop_last(), s);
        assert((a + b).drop_last() =~= a + b.drop_last());
        assert((a + b).last() == b.last());
        let tail = if b.last().severity == s {
            seq![b.last()]
        } else {
            Seq::empty()
        };
        assert(of_severity(a, s) + of_severity(b.drop_last(), s) + tail =~= of_severity(a, s) + (
        of_severity(b.drop_last(), s) + tail));
    }
}

/// Keeping the findings at `s` of the findings at `t`.
proof fn lemma_of_severity_twice(fs: Seq<FindingView>, s: Severity, t: Severity)
    ensures
        of_severity(of_severity(fs, t), s) == if s == t {
            of_severity(fs, t)
        } else {
            Seq::empty()
        },
    decreases fs.len(),
{
    if fs.len() > 0 {
        lemma_of_severity_twice(fs.drop_last(), s, t);
        let prev = of_severity(fs.drop_last(), t);
        if fs.last().severity == t {
            assert(of_severity(fs, t) == prev.push(fs.last())) by {
                assert(prev + seq![fs.last()] =~= prev.push(fs.last()));
            }
            assert(prev.push(fs.last()).drop_last() =~= prev);
        } else {
            assert(of_severity(fs, t) =~= prev);
        }
    } else {
        assert(of_severity(Seq::<FindingView>::empty(), s) =~= Seq::<FindingView>::empty());
    }
}

/// The digest order puts more serious findings first, keeps findings of
/// equal severity in their order, and keeps every finding: the same
/// findings at each severity, in the same order, and as many in all.
pub proof fn lemma_digest_order(fs: Seq<FindingView>)
    ensures
        forall|i: int, j: int|
            0 <= i < j < by_severity_desc(fs).len() ==> severity_rank(
                #[trigger] by_severity_desc(fs)[i].severity,
            ) >= severity_rank(#[trigger] by_severity_desc(fs)[j].severity),
        forall|s: Severity| #[trigger] of_severity(by_severity_desc(fs), s) == of_severity(fs, s),
        by_severity_desc(fs).len() == fs.len(),
{
    let b = of_severity(fs, Severity::Blocker);
    let m = of_severity(fs, Severity::Major);
    let mi = of_severity(fs, Severity::Minor);
    let inf = of_severity(fs, Severity::Info);
    let d = by_severity_desc(fs);
    crate::report::lemma_severity_partition(fs);
    lemma_of_severity_all(fs, Severity::Blocker);
    lemma_of_severity_all(fs, Severity::Major);
    lemma_of_severity_all(fs, Severity::Minor);
    lemma_of_severity_all(fs, Severity::Info);
    assert forall|i: int| 0 <= i < d.len() implies severity_rank(#[trigger] d[i].severity) == if i
        < b.len() {
        3int
    } else if i < b.len() + m.len() {
        2int
    } else if i < b.len() + m.len() + mi.len() {
        1int
    } else {
        0int
    } by {
        if i < b.len() {
            assert(d[i] == b[i]);
        } else if i < b.len() + m.len() {
            assert(d[i] == m[i - b.len()]);
        } else if i < b.len() + m.len() + mi.len() {
            assert(d[i] == mi[i - b.len() - m.len()]);
        } else {
            assert(d[i] == inf[i - b.len() - m.len() - mi.len()]);
        }
    }
    assert forall|s: Severity| #[trigger] of_severity(d, s) == of_severity(fs, s) by {
        lemma_of_severity_concat(b + m + mi, inf, s);
        lemma_of_severity_concat(b + m, mi, s);
        lemma_of_severity_concat(b, m, s);
        lemma_of_severity_twice(fs, s, Severity::Blocker);
        lemma_of_severity_twice(fs, s, Severity::Major);
        lemma_of_severity_twice(fs, s, Severity::Minor);
        lemma_of_severity_twice(fs, s, Severity::Info);
        let e = Seq::<FindingView>::empty();
        match s {
            Severity::Blocker => {
                assert(of_severity(fs, s) + e + e + e =~= of_severity(fs, s));
            },
            Severity::Major => {
                assert(e + of_severity(fs, s) + e + e =~= of_severity(fs, s));
            },
            Severity::Minor => {
                assert(e + e + of_severity(fs, s) + e =~= of_severity(fs, s));
            },
            Severity::Info => {
                assert(e + e + e + of_severity(fs, s) =~= of_severity(fs, s));
            },
        }
    }
}

/// A parallel run sends each critic, in order, exactly one subject prompt,
/// and so gives one response per critic.
pub proof fn lemma_parallel_one_response_per_critic(critics: Seq<Seq<char>>, text: Seq<char>, trace: Seq<Exchange>)
    requires
        parallel_run(critics, text, trace),
    ensures
        trace.len() == critics.len(),
        responses(trace).len() == critics.len(),
        forall|i: int|
            0 <= i < trace.len() ==> (#[trigger] trace[i]).critic == critics[i] && trace[i].prompt
                == subject_prompt(critics[i], text),
{
    assert(delivered(trace).len() == trace.len());
    assert(first_round(critics, text).len() == critics.len());
    assert forall|i: int| 0 <= i < trace.len() implies (#[trigger] trace[i]).critic == critics[i]
        && trace[i].prompt == subject_prompt(critics[i], text) by {
        assert(delivered(trace)[i] == first_round(critics, text)[i]);
    }
}

/// Setting a name's value and reading it back gives the value; other names
/// read as before.
pub proof fn lemma_upsert_reads_back<V>(entries: Seq<(Seq<char>, V)>, name: Seq<char>, v: V, other: Seq<char>)
    requires
        unique_names(keys(entries)),
    ensures
        lookup(upsert(entries, name, v), name) == Some(v),
        other != name ==> lookup(upsert(entries, name, v), other) == lookup(entries, other),
        unique_names(keys(upsert(entries, name, v))),
{
    let ks = keys(entries);
    let u = upsert(entries, name, v);
    lemma_position(ks, name);
    lemma_position(ks, other);
    match position(ks, name) {
        Some(i) => {
            assert(keys(u) =~= ks);
            lemma_position(keys(u), name);
            lemma_position(keys(u), other);
            assert(u[i] == (name, v));
            if other != name {
                match position(ks, other) {
                    Some(j) => {
                        assert(j != i);
                        assert(u[j] == entries[j]);
                    },
                    None => {},
                }
            }
        },
        None => {
            assert(keys(u) =~= ks.push(name));
            assert(keys(u).drop_last() =~= ks);
            assert(u[ks.len() as int] == (name, v));
            if other != name {
                lemma_position(keys(u), other);
                match position(ks, other) {
                    Some(j) => {
                        assert(u[j] == entries[j]);
                    },
                    None => {},
                }
            }
        },
    }
}

/// A removed name reads as absent; other names read as before.
pub proof fn lemma_remove_reads_absent<V>(entries: Seq<(Seq<char>, V)>, name: Seq<char>, other: Seq<char>)
    requires
        unique_names(keys(entries)),
    ensures
        lookup(remove_name(entries, name), name) is None,
        other != name ==> lookup(remove_name(entries, name), other) == lookup(entries, other),
        unique_names(keys(remove_name(entries, name))),
{
    let ks = keys(entries);
    let r = remove_name(entries, name);
    lemma_position(ks, name);
    lemma_position(ks, other);
    match position(ks, name) {
        Some(i) => {
            assert(keys(r) =~= ks.remove(i));
            lemma_position(keys(r), name);
            lemma_position(keys(r), other);
            assert forall|j: int| 0 <= j < keys(r).len() implies #[trigger] keys(r)[j] != name by {
                if j < i {
                    assert(keys(r)[j] == ks[j]);
                } else {
                    assert(keys(r)[j] == ks[j + 1]);
                }
            }
            if other != name {
                match position(ks, other) {
                    Some(j) => {
                        assert(j != i);
                        if j < i {
                            assert(keys(r)[j] == other);
                            assert(r[j] == entries[j]);
                            assert forall|k: int| j < k < keys(r).len() implies #[trigger] keys(r)[k] != other by {
                                if k < i {
                                    assert(keys(r)[k] == ks[k]);
                                } else {
                                    assert(keys(r)[k] == ks[k + 1]);
                                }
                            }
                        } else {
                            assert(keys(r)[j - 1] == other);
                            assert(r[j - 1] == entries[j]);
                            assert forall|k: int| j - 1 < k < keys(r).len() implies #[trigger] keys(r)[k] != other by {
                                assert(keys(r)[k] == ks[k + 1]);
                            }
                        }
                    },
                    None => {
                        assert forall|k: int| 0 <= k < keys(r).len() implies #[trigger] keys(r)[k] != other by {
                            if k < i {
                                assert(keys(r)[k] == ks[k]);
                            } else {
                                assert(keys(r)[k] == ks[k + 1]);
                            }
                        }
                    },
                }
            }
        },
        None => {
            assert(r == entries);
        },
    }
}

/// A response without an opening fence describes no findings.
pub proof fn lemma_no_fence_no_findings(body: Seq<char>)
    requires
        find_from(body, open_fence(), 0) is None,
    ensures
        parsed_findings(body) == Seq::<FindingView>::empty(),
{
    assert(fenced_blocks(body, 0) =~= Seq::<Seq<char>>::empty());
    assert(findings_of_blocks(Seq::<Seq<char>>::empty()) =~= Seq::<FindingView>::empty());
}

/// A rounds run capped at one round is a parallel run.
pub proof fn lemma_single_round_is_parallel(critics: Seq<Seq<char>>, text: Seq<char>, trace: Seq<Exchange>)
    ensures
        rounds_run(critics, text, 1, trace) <==> parallel_run(critics, text, trace),
{
    let n = critics.len() as int;
    if rounds_run(critics, text, 1, trace) {
        assert(later_rounds(critics, responses(trace.take(n)), 0, trace.skip(n)));
        assert(trace.skip(n).len() == 0);
        assert(trace.take(n) =~= trace);
    }
    if parallel_run(critics, text, trace) {
        assert(delivered(trace).len() == trace.len());
        assert(first_round(critics, text).len() == critics.len());
        assert(trace.take(n) =~= trace);
        assert(trace.skip(n) =~= Seq::<Exchange>::empty());
    }
}

/// The number of critiques among `ms`.
pub open spec fn critique_count(ms: Seq<MessageView>) -> nat
    decreases ms.len(),
{
    if ms.len() == 0 {
        0
    } else {
        critique_count(ms.drop_last()) + if ms.last().kind == MessageKind::Critique {
            1nat
        } else {
            0nat
        }
    }
}

/// A transcript folds into one `Major` finding per critique, and into
/// nothing else.
pub proof fn lemma_one_finding_per_critique(ms: Seq<MessageView>)
    ensures
        critique_findings(ms).len() == critique_count(ms),
        forall|i: int| 0 <= i < critique_findings(ms).len() ==> (#[trigger] critique_findings(ms)[i]).severity == Severity::Major,
    decreases ms.len(),
{
    if ms.len() > 0 {
        lemma_one_finding_per_critique(ms.drop_last());
        let prev = critique_findings(ms.drop_last());
        assert forall|i: int| 0 <= i < critique_findings(ms).len() implies (#[trigger] critique_findings(ms)[i]).severity == Severity::Major by {
            if i < prev.len() {
                assert(critique_findings(ms)[i] == prev[i]);
            }
        }
    }
}

} // verus!

verus! {

/// The findings of blocks are, in block order, the findings of the blocks
/// that have a summary: one per such block, and none for the others.
pub proof fn lemma_block_findings_in_order(bs: Seq<Seq<char>>)
    ensures
        findings_of_blocks(bs) == bs.filter(|b: Seq<char>| block_finding(b) is Some).map_values(
            |b: Seq<char>| block_finding(b).unwrap(),
        ),
    decreases bs.len(),
{
    let has = |b: Seq<char>| block_finding(b) is Some;
    let get = |b: Seq<char>| block_finding(b).unwrap();
    reveal(Seq::filter);
    if bs.len() == 0 {
        assert(bs.filter(has) =~= Seq::<Seq<char>>::empty());
        assert(bs.filter(has).map_values(get) =~= Seq::<FindingView>::empty());
    } else {
        lemma_block_findings_in_order(bs.drop_last());
        let sub = bs.drop_last().filter(has);
        if has(bs.last()) {
            assert(bs.filter(has) == sub.push(bs.last()));
            assert(sub.push(bs.last()).map_values(get) =~= sub.map_values(get).push(get(bs.last())));
            assert(findings_of_blocks(bs) =~= findings_of_blocks(bs.drop_last()).push(get(bs.last())));
        } else {
            assert(bs.filter(has) == sub);
            assert(findings_of_blocks(bs) =~= findings_of_blocks(bs.drop_last()));
        }
    }
}

/// A summarizer response yields, in order, one finding per terminated
/// finding block that has a summary line, and nothing for the others.
pub proof fn lemma_findings_are_block_findings(body: Seq<char>)
    ensures
        parsed_findings(body) == fenced_blocks(body, 0).filter(|b: Seq<char>| block_finding(b) is Some).map_values(
            |b: Seq<char>| block_finding(b).unwrap(),
        ),
{
    lemma_block_findings_in_order(fenced_blocks(body, 0));
}

/// An opening fence with no closing fence after it yields no findings.
pub proof fn lemma_unterminated_fence_no_findings(body: Seq<char>, st: nat)
    requires
        find_from(body, open_fence(), 0) == Some(st),
        find_from(body, close_fence(), next_char(body, st + open_fence().len(), '\n')) is None,
    ensures
        parsed_findings(body) == Seq::<FindingView>::empty(),
{
    assert(fenced_blocks(body, 0) =~= Seq::<Seq<char>>::empty());
    assert(findings_of_blocks(Seq::<Seq<char>>::empty()) =~= Seq::<FindingView>::empty());
}

} // verus!

verus! {

/// The fallback order of a critic starts with its drawn config.
pub proof fn lemma_fallback_starts_with_primary(primary: ConfigView, configs: Seq<ConfigView>)
    ensures
        fallback_order(primary, configs).len() >= 1,
        fallback_order(primary, configs)[0] == primary,
    decreases configs.len(),
{
    if configs.len() > 0 {
        lemma_fallback_starts_with_primary(primary, configs.drop_last());
    }
}

/// A dry run shows the run with the same seed: in a multi-provider run
/// drawn with `seed`, critic `i` is first asked by the config of the model
/// that slot `i` of the plan for `seed` names.
pub proof fn lemma_plan_shows_run(
    personas: Seq<PersonaView>,
    configs: Seq<ConfigView>,
    text: Seq<char>,
    seed: u64,
    all: Seq<Seq<Ask>>,
    i: int,
)
    requires
        fallback_run(personas, configs, text, seeded_picks(seed, configs.len() as usize, personas.len()), all),
        0 <= i < all.len(),
        all[i].len() > 0,
    ensures
        all[i][0].config.model == roster_of(
            personas,
            configs,
            seeded_picks(seed, configs.len() as usize, personas.len()),
        ).map_values(|e: (PersonaView, ConfigView)| slot_of(e))[i].2,
{
    let picks = seeded_picks(seed, configs.len() as usize, personas.len());
    lemma_fallback_starts_with_primary(configs[picks[i] as int], configs);
    assert(asked_in_order(personas[i].name, text, fallback_order(configs[picks[i] as int], configs), all[i]));
    assert(all[i][0].config == fallback_order(configs[picks[i] as int], configs)[0]);
}

} // verus!

verus! {

/// In a later round, critic `c` receives exactly the prior messages whose
/// sender is not `c`: every one of them, in order, and no other.
pub proof fn lemma_others_are_the_messages_not_sent_by_the_critic(c: Seq<char>, prior: Seq<MessageView>)
    ensures
        crate::runner::others(c, prior) == prior.filter(|m: MessageView| m.sender != c).map_values(
            |m: MessageView| (c, m),
        ),
    decreases prior.len(),
{
    reveal(Seq::filter);
    let keep = |m: MessageView| m.sender != c;
    let pair = |m: MessageView| (c, m);
    if prior.len() == 0 {
        assert(prior.filter(keep) =~= Seq::<MessageView>::empty());
        assert(prior.filter(keep).map_values(pair) =~= Seq::<(Seq<char>, MessageView)>::empty());
    } else {
        lemma_others_are_the_messages_not_sent_by_the_critic(c, prior.drop_last());
        let sub = prior.drop_last().filter(keep);
        if keep(prior.last()) {
            assert(prior.filter(keep) == sub.push(prior.last()));
            assert(sub.push(prior.last()).map_values(pair) =~= sub.map_values(pair).push(pair(prior.last())));
        } else {
            assert(prior.filter(keep) == sub);
        }
    }
}

/// A later round delivers, critic after critic, each critic every prior
/// message it did not send, in order.
pub proof fn lemma_later_round_routes_every_other_message(critics: Seq<Seq<char>>, prior: Seq<MessageView>)
    ensures
        crate::runner::cross_round(critics, prior) == critics.map_values(
            |c: Seq<char>| prior.filter(|m: MessageView| m.sender != c).map_values(|m: MessageView| (c, m)),
        ).flatten(),
    decreases critics.len(),
{
    let per = |c: Seq<char>| prior.filter(|m: MessageView| m.sender != c).map_values(|m: MessageView| (c, m));
    if critics.len() == 0 {
        assert(critics.map_values(per) =~= Seq::<Seq<(Seq<char>, MessageView)>>::empty());
    } else {
        lemma_later_round_routes_every_other_message(critics.drop_last(), prior);
        lemma_others_are_the_messages_not_sent_by_the_critic(critics.last(), prior);
        assert(critics.map_values(per) =~= critics.drop_last().map_values(per).push(per(critics.last())));
        critics.drop_last().map_values(per).lemma_flatten_push(per(critics.last()));
    }
}

/// The summarizer's user turn is the subject text followed by one line per
/// transcript message, in order, whatever its kind: the sender, the kind's
/// label and the text.
pub proof fn lemma_summary_lists_every_turn(text: Seq<char>, ms: Seq<MessageView>)
    ensures
        crate::summary::summary_user_prompt(text, ms) == "# Document under critique\n\n"@ + text
            + "\n\n# Critique transcript\n\n"@ + ms.map_values(
            |m: MessageView| "["@ + m.sender + "] (critic) "@ + kind_label(m.kind) + ": "@ + m.text + "\n"@,
        ).flatten(),
{
    lemma_turn_lines_flatten(ms);
}

proof fn lemma_turn_lines_flatten(ms: Seq<MessageView>)
    ensures
        crate::summary::turn_lines(ms) == ms.map_values(
            |m: MessageView| "["@ + m.sender + "] (critic) "@ + kind_label(m.kind) + ": "@ + m.text + "\n"@,
        ).flatten(),
    decreases ms.len(),
{
    let line = |m: MessageView| "["@ + m.sender + "] (critic) "@ + kind_label(m.kind) + ": "@ + m.text + "\n"@;
    if ms.len() == 0 {
        assert(ms.map_values(line) =~= Seq::<Seq<char>>::empty());
    } else {
        lemma_turn_lines_flatten(ms.drop_last());
        assert(ms.map_values(line) =~= ms.drop_last().map_values(line).push(line(ms.last())));
        ms.drop_last().map_values(line).lemma_flatten_push(line(ms.last()));
    }
}

/// The key variable of the provider that serves each documented base URL.
pub open spec fn documented_key_var(base_url: Seq<char>) -> Option<Seq<char>> {
    if base_url == "https://api.deepseek.com/v1"@ {
        Some("DEEPSEEK_API_KEY"@)
    } else if base_url == "https://api.openai.com/v1"@ {
        Some("OPENAI_API_KEY"@)
    } else if base_url == "https://api.moonshot.cn/v1"@ {
        Some("MOONSHOT_API_KEY"@)
    } else if base_url == "https://dashscope.aliyuncs.com/compatible-mode/v1"@ {
        Some("DASHSCOPE_API_KEY"@)
    } else if base_url == "https://api.z.ai/api/coding/paas/v4"@ {
        Some("ZAI_API_KEY"@)
    } else if base_url == "https://generativelanguage.googleapis.com/v1beta/openai"@ {
        Some("GOOGLE_API_KEY"@)
    } else {
        None
    }
}

/// Each registry preset reads its key from the variable of the provider
/// that serves its base URL.
pub proof fn lemma_registry_keys_match_base_urls()
    ensures
        forall|i: int|
            0 <= i < crate::backend::roster::registry_spec().len() ==> documented_key_var(
                (#[trigger] crate::backend::roster::registry_spec()[i]).base_url,
            ) == Some(crate::backend::roster::registry_spec()[i].key_env_var),
{
    reveal_strlit("https://api.deepseek.com/v1");
    reveal_strlit("https://api.openai.com/v1");
    reveal_strlit("https://api.moonshot.cn/v1");
    reveal_strlit("https://dashscope.aliyuncs.com/compatible-mode/v1");
    reveal_strlit("https://api.z.ai/api/coding/paas/v4");
    reveal_strlit("https://generativelanguage.googleapis.com/v1beta/openai");
    let reg = crate::backend::roster::registry_spec();
    assert(reg[1].base_url[12] != "https://api.deepseek.com/v1"@[12]);
    assert(reg[2].base_url[12] != "https://api.deepseek.com/v1"@[12]);
    assert(reg[2].base_url[12] != "https://api.openai.com/v1"@[12]);
    assert(reg[3].base_url.len() != "https://api.deepseek.com/v1"@.len());
    assert(reg[3].base_url.len() != "https://api.openai.com/v1"@.len());
    assert(reg[3].base_url.len() != "https://api.moonshot.cn/v1"@.len());
    assert(reg[4].base_url.len() != "https://api.deepseek.com/v1"@.len());
    assert(reg[4].base_url.len() != "https://api.openai.com/v1"@.len());
    assert(reg[4].base_url.len() != "https://api.moonshot.cn/v1"@.len());
    assert(reg[4].base_url.len() != "https://dashscope.aliyuncs.com/compatible-mode/v1"@.len());
    assert(reg[5].base_url.len() != "https://api.deepseek.com/v1"@.len());
    assert(reg[5].base_url.len() != "https://api.openai.com/v1"@.len());
    assert(reg[5].base_url.len() != "https://api.moonshot.cn/v1"@.len());
    assert(reg[5].base_url.len() != "https://dashscope.aliyuncs.com/compatible-mode/v1"@.len());
    assert(reg[5].base_url.len() != "https://api.z.ai/api/coding/paas/v4"@.len());
}

/// The provider pool keeps, in order, exactly the configs of the resolved
/// ones whose host no discovered config serves followed by the discovered
/// ones, whose model is in neither exclusion list.
pub proof fn lemma_pool_drops_every_excluded_model(
    resolved: Seq<ConfigView>,
    discovered: Seq<ConfigView>,
    ex1: Seq<Seq<char>>,
    ex2: Seq<Seq<char>>,
)
    ensures
        crate::backend::credentials::merged_pool(resolved, discovered, ex1, ex2) == (resolved.filter(
            |c: ConfigView| !crate::backend::credentials::hosts_of(discovered).contains(
                crate::backend::credentials::host_of(c.base_url),
            ),
        ) + discovered).filter(|c: ConfigView| !ex1.contains(c.model) && !ex2.contains(c.model)),
        forall|i: int|
            0 <= i < crate::backend::credentials::merged_pool(resolved, discovered, ex1, ex2).len() ==> !ex1.contains(
                (#[trigger] crate::backend::credentials::merged_pool(resolved, discovered, ex1, ex2)[i]).model,
            ) && !ex2.contains(crate::backend::credentials::merged_pool(resolved, discovered, ex1, ex2)[i].model),
{
    let cs = crate::backend::credentials::drop_hosts(resolved, crate::backend::credentials::hosts_of(discovered))
        + discovered;
    lemma_drop_models_filter(cs, ex1, ex2);
    lemma_drop_hosts_filter(resolved, crate::backend::credentials::hosts_of(discovered));
    let keep = |c: ConfigView| !ex1.contains(c.model) && !ex2.contains(c.model);
    assert forall|i: int| 0 <= i < cs.filter(keep).len() implies keep(#[trigger] cs.filter(keep)[i]) by {
        cs.lemma_filter_pred(keep, i);
    }
}

proof fn lemma_drop_hosts_filter(cs: Seq<ConfigView>, hosts: Seq<Seq<char>>)
    ensures
        crate::backend::credentials::drop_hosts(cs, hosts) == cs.filter(
            |c: ConfigView| !hosts.contains(crate::backend::credentials::host_of(c.base_url)),
        ),
    decreases cs.len(),
{
    reveal(Seq::filter);
    let keep = |c: ConfigView| !hosts.contains(crate::backend::credentials::host_of(c.base_url));
    if cs.len() == 0 {
        assert(cs.filter(keep) =~= Seq::<ConfigView>::empty());
    } else {
        lemma_drop_hosts_filter(cs.drop_last(), hosts);
        if keep(cs.last()) {
            assert(cs.filter(keep) == cs.drop_last().filter(keep).push(cs.last()));
        } else {
            assert(cs.filter(keep) == cs.drop_last().filter(keep));
        }
    }
}

proof fn lemma_drop_models_filter(cs: Seq<ConfigView>, ex1: Seq<Seq<char>>, ex2: Seq<Seq<char>>)
    ensures
        crate::backend::credentials::drop_models(cs, ex1, ex2) == cs.filter(
            |c: ConfigView| !ex1.contains(c.model) && !ex2.contains(c.model),
        ),
    decreases cs.len(),
{
    reveal(Seq::filter);
    let keep = |c: ConfigView| !ex1.contains(c.model) && !ex2.contains(c.model);
    if cs.len() == 0 {
        assert(cs.filter(keep) =~= Seq::<ConfigView>::empty());
    } else {
        lemma_drop_models_filter(cs.drop_last(), ex1, ex2);
        if keep(cs.last()) {
            assert(cs.filter(keep) == cs.drop_last().filter(keep).push(cs.last()));
        } else {
            assert(cs.filter(keep) == cs.drop_last().filter(keep));
        }
    }
}

} // verus!
