//! The summarizer: structures a critique transcript into rich [`Finding`]s.
//!
//! After a run, a second model call (the *summarizer*) reads the whole
//! transcript and subject and emits each distinct issue as a fenced
//! ` ```praxis-finding ` block of `key: value` lines. This module renders
//! that prompt and parses the response.
//!
//! Parsing never fails: an unrecognized severity means `Major`, a block
//! without a `summary` line is skipped, and a response without blocks gives
//! no findings.

use crate::agent::AgentId;
use crate::backend::http::{completion_content, read_completion_content};
use crate::error::PraxisError;
use crate::graph::id_views;
use crate::message::{kind_label, MessageView};
use crate::persona::opt_view;
use crate::report::{Finding, FindingView, Severity, finding_views};
use crate::subject::Subject;
use crate::text::{
    chars_of, copy_range, lemma_next_char_bounds, lowercase, next_char, next_char_at, push_str,
    range_eq_str, string_from_chars, string_of, to_lowercase, trim, trim_bounds,
};
use crate::transcript::{message_views, Transcript};
use vstd::prelude::*;

verus! {

/// The fence that opens a finding block.
pub open spec fn open_fence() -> Seq<char> {
    "```praxis-finding"@
}

/// The fence that closes a finding block.
pub open spec fn close_fence() -> Seq<char> {
    "```"@
}

/// Whether `pat` occurs in `s` at position `i`.
pub open spec fn occurs_at(s: Seq<char>, pat: Seq<char>, i: int) -> bool {
    0 <= i && i + pat.len() <= s.len() && s.subrange(i, i + pat.len()) == pat
}

/// The first position at or after `from` where `pat` occurs in `s`.
pub open spec fn find_from(s: Seq<char>, pat: Seq<char>, from: nat) -> Option<nat>
    decreases s.len() + 1 - from,
{
    if from + pat.len() > s.len() {
        None
    } else if occurs_at(s, pat, from as int) {
        Some(from)
    } else {
        find_from(s, pat, from + 1)
    }
}

/// `find_from` finds the first occurrence at or after `from`.
pub proof fn lemma_find_from_bounds(s: Seq<char>, pat: Seq<char>, from: nat)
    ensures
        match find_from(s, pat, from) {
            Some(i) => from <= i && occurs_at(s, pat, i as int) && forall|j: int|
                from <= j < i ==> !occurs_at(s, pat, j),
            None => forall|j: int| from <= j ==> !occurs_at(s, pat, j),
        },
    decreases s.len() + 1 - from,
{
    if from + pat.len() > s.len() {
    } else if occurs_at(s, pat, from as int) {
    } else {
        lemma_find_from_bounds(s, pat, from + 1);
    }
}

/// The trimmed inner text of each finding block of `s` at or after `from`:
/// after an opening fence, the rest of its line is skipped and the block
/// runs to the next closing fence. An unterminated block ends the scan.
pub open spec fn fenced_blocks(s: Seq<char>, from: nat) -> Seq<Seq<char>>
    decreases s.len() + 1 - from,
{
    match find_from(s, open_fence(), from) {
        None => Seq::empty(),
        Some(st) => {
            let le = next_char(s, st + open_fence().len(), '\n');
            match find_from(s, close_fence(), le) {
                None => Seq::empty(),
                Some(c) => {
                    proof {
                        reveal_strlit("```");
                        reveal_strlit("```praxis-finding");
                        lemma_find_from_bounds(s, open_fence(), from);
                        lemma_next_char_bounds(s, st + open_fence().len(), '\n');
                        lemma_find_from_bounds(s, close_fence(), le);
                    }
                    seq![trim(s.subrange(le as int, c as int))] + fenced_blocks(s, c + 3)
                },
            }
        },
    }
}

/// `l` without one trailing carriage return.
pub open spec fn strip_cr(l: Seq<char>) -> Seq<char> {
    if l.len() > 0 && l.last() == '\r' {
        l.drop_last()
    } else {
        l
    }
}

/// The lines of `s` from `from` on, as `str::lines` gives them: split at
/// `\n`, a `\r` before a `\n` dropped, no empty line after a final `\n`.
pub open spec fn lines_from(s: Seq<char>, from: nat) -> Seq<Seq<char>>
    decreases s.len() - from,
{
    if from >= s.len() {
        Seq::empty()
    } else {
        let e = next_char(s, from, '\n');
        proof {
            lemma_next_char_bounds(s, from, '\n');
        }
        if e >= s.len() {
            seq![s.subrange(from as int, s.len() as int)]
        } else {
            seq![strip_cr(s.subrange(from as int, e as int))] + lines_from(s, e + 1)
        }
    }
}

/// The pieces of `s` from `from` on between separators `c`, as
/// `str::split` gives them (empty pieces included).
pub open spec fn pieces(s: Seq<char>, from: nat, c: char) -> Seq<Seq<char>>
    decreases s.len() + 1 - from,
{
    if from > s.len() {
        Seq::empty()
    } else {
        let e = next_char(s, from, c);
        proof {
            lemma_next_char_bounds(s, from, c);
        }
        if e >= s.len() {
            seq![s.subrange(from as int, s.len() as int)]
        } else {
            seq![s.subrange(from as int, e as int)] + pieces(s, e + 1, c)
        }
    }
}

/// The non-empty trimmed pieces, in order.
pub open spec fn critic_names(ps: Seq<Seq<char>>) -> Seq<Seq<char>>
    decreases ps.len(),
{
    if ps.len() == 0 {
        Seq::empty()
    } else {
        critic_names(ps.drop_last()) + if trim(ps.last()).len() > 0 {
            seq![trim(ps.last())]
        } else {
            Seq::empty()
        }
    }
}

/// The severity a (lowercased) label names; any other label means `Major`.
pub open spec fn severity_of_label(t: Seq<char>) -> Severity {
    if t == "info"@ {
        Severity::Info
    } else if t == "minor"@ {
        Severity::Minor
    } else if t == "major"@ {
        Severity::Major
    } else if t == "blocker"@ {
        Severity::Blocker
    } else {
        Severity::Major
    }
}

/// The fields read so far from a block.
pub struct Draft {
    pub severity: Option<Severity>,
    pub category: Option<Seq<char>>,
    pub summary: Option<Seq<char>>,
    pub location: Option<Seq<char>>,
    pub quote: Option<Seq<char>>,
    pub suggested_change: Option<Seq<char>>,
    pub supporting: Seq<Seq<char>>,
}

/// Nothing read yet.
pub open spec fn empty_draft() -> Draft {
    Draft {
        severity: None,
        category: None,
        summary: None,
        location: None,
        quote: None,
        suggested_change: None,
        supporting: Seq::empty(),
    }
}

/// Splits a line at its first `:` into key and value.
pub open spec fn split_colon(l: Seq<char>) -> Option<(Seq<char>, Seq<char>)> {
    let p = next_char(l, 0, ':');
    if p >= l.len() {
        None
    } else {
        Some((l.subrange(0, p as int), l.subrange(p + 1int, l.len() as int)))
    }
}

/// The draft after reading one line: a line without `:` or with an unknown
/// key changes nothing; a known key sets its field (the last one wins).
pub open spec fn apply_line(d: Draft, line: Seq<char>) -> Draft {
    match split_colon(line) {
        None => d,
        Some(kv) => {
            let key = trim(kv.0);
            let value = trim(kv.1);
            if key == "severity"@ {
                Draft { severity: Some(severity_of_label(lowercase(value))), ..d }
            } else if key == "category"@ {
                Draft { category: Some(value), ..d }
            } else if key == "summary"@ {
                Draft { summary: Some(value), ..d }
            } else if key == "location"@ {
                Draft { location: Some(value), ..d }
            } else if key == "quote"@ {
                Draft { quote: Some(value), ..d }
            } else if key == "suggested_change"@ {
                Draft { suggested_change: Some(value), ..d }
            } else if key == "supporting_critics"@ {
                Draft { supporting: critic_names(pieces(value, 0, ',')), ..d }
            } else {
                d
            }
        },
    }
}

/// The draft after reading `ls` in order.
pub open spec fn apply_lines(ls: Seq<Seq<char>>) -> Draft
    decreases ls.len(),
{
    if ls.len() == 0 {
        empty_draft()
    } else {
        apply_line(apply_lines(ls.drop_last()), ls.last())
    }
}

/// The finding a block describes; `None` when it has no `summary` line.
pub open spec fn block_finding(block: Seq<char>) -> Option<FindingView> {
    let d = apply_lines(lines_from(block, 0));
    match d.summary {
        None => None,
        Some(summary) => Some(
            FindingView {
                severity: match d.severity {
                    Some(s) => s,
                    None => Severity::Major,
                },
                category: d.category,
                summary,
                location: d.location,
                quote: d.quote,
                suggested_change: d.suggested_change,
                supporting: d.supporting,
            },
        ),
    }
}

/// The findings of a sequence of blocks, skipping those without a summary.
pub open spec fn findings_of_blocks(bs: Seq<Seq<char>>) -> Seq<FindingView>
    decreases bs.len(),
{
    if bs.len() == 0 {
        Seq::empty()
    } else {
        findings_of_blocks(bs.drop_last()) + match block_finding(bs.last()) {
            Some(f) => seq![f],
            None => Seq::empty(),
        }
    }
}

/// The findings a summarizer response describes.
pub open spec fn parsed_findings(body: Seq<char>) -> Seq<FindingView> {
    findings_of_blocks(fenced_blocks(body, 0))
}

/// The views of a vector of character vectors.
pub open spec fn char_views(vs: Seq<Vec<char>>) -> Seq<Seq<char>> {
    vs.map_values(|v: Vec<char>| v@)
}

/// Whether `pat` occurs in `v` at `i`.
fn occurs_at_exec(v: &Vec<char>, pat: &Vec<char>, i: usize) -> (r: bool)
    ensures
        r == occurs_at(v@, pat@, i as int),
{
    if i > v.len() || pat.len() > v.len() - i {
        return false;
    }
    let mut k: usize = 0;
    while k < pat.len()
        invariant
            i + pat.len() <= v.len(),
            k <= pat.len(),
            forall|j: int| 0 <= j < k ==> v@[i + j] == pat@[j],
        decreases pat.len() - k,
    {
        if v[i + k] != pat[k] {
            assert(v@.subrange(i as int, i + pat.len())[k as int] != pat@[k as int]);
            return false;
        }
        k = k + 1;
    }
    assert(v@.subrange(i as int, i + pat.len()) =~= pat@);
    true
}

/// Computes [`find_from`].
fn find_at_or_after(v: &Vec<char>, pat: &Vec<char>, from: usize) -> (r: Option<usize>)
    ensures
        match r {
            Some(i) => find_from(v@, pat@, from as nat) == Some(i as nat),
            None => find_from(v@, pat@, from as nat) is None,
        },
{
    let mut i = from;
    while i <= v.len() && pat.len() <= v.len() - i
        invariant
            from <= i,
            find_from(v@, pat@, from as nat) == find_from(v@, pat@, i as nat),
        decreases v.len() + 1 - i,
    {
        if i == v.len() {
            assert(v@.subrange(i as int, i as int) =~= pat@);
        }
        if occurs_at_exec(v, pat, i) {
            return Some(i);
        }
        i = i + 1;
    }
    None
}

/// The trimmed inner text of each finding block of `body`, in order.
fn extract_finding_blocks(body: &Vec<char>) -> (r: Vec<Vec<char>>)
    ensures
        char_views(r@) == fenced_blocks(body@, 0),
{
    let open = chars_of("```praxis-finding");
    let close = chars_of("```");
    proof {
        reveal_strlit("```praxis-finding");
        reveal_strlit("```");
    }
    let mut blocks: Vec<Vec<char>> = Vec::new();
    let mut pos: usize = 0;
    assert(char_views(blocks@) + fenced_blocks(body@, 0) =~= fenced_blocks(body@, 0));
    loop
        invariant
            pos <= body.len(),
            open@ == open_fence(),
            close@ == close_fence(),
            char_views(blocks@) + fenced_blocks(body@, pos as nat) == fenced_blocks(body@, 0),
        ensures
            char_views(blocks@) == fenced_blocks(body@, 0),
        decreases body.len() + 1 - pos,
    {
        let ghost rest = fenced_blocks(body@, pos as nat);
        match find_at_or_after(body, &open, pos) {
            None => {
                assert(char_views(blocks@) =~= char_views(blocks@) + rest);
                break;
            },
            Some(st) => {
                proof {
                    lemma_find_from_bounds(body@, open@, pos as nat);
                }
                let le = next_char_at(body, st + open.len(), '\n');
                proof {
                    lemma_next_char_bounds(body@, (st + open.len()) as nat, '\n');
                }
                match find_at_or_after(body, &close, le) {
                    None => {
                        assert(char_views(blocks@) =~= char_views(blocks@) + rest);
                        break;
                    },
                    Some(c) => {
                        proof {
                            reveal_strlit("```");
                            lemma_find_from_bounds(body@, close@, le as nat);
                        }
                        let (a, b) = trim_bounds(body, le, c);
                        let block = copy_range(body, a, b);
                        let ghost before = blocks@;
                        blocks.push(block);
                        assert(char_views(blocks@) =~= char_views(before).push(block@));
                        assert(rest == seq![block@] + fenced_blocks(body@, (c + 3) as nat));
                        assert(char_views(blocks@) + fenced_blocks(body@, (c + 3) as nat) =~= char_views(before) + rest);
                        pos = c + 3;
                    },
                }
            },
        }
    }
    blocks
}

/// The lines of `v`, as `str::lines` gives them.
fn split_lines(v: &Vec<char>) -> (r: Vec<Vec<char>>)
    ensures
        char_views(r@) == lines_from(v@, 0),
{
    let mut lines: Vec<Vec<char>> = Vec::new();
    let mut pos: usize = 0;
    assert(char_views(lines@) + lines_from(v@, 0) =~= lines_from(v@, 0));
    while pos < v.len()
        invariant
            pos <= v.len(),
            char_views(lines@) + lines_from(v@, pos as nat) == lines_from(v@, 0),
        decreases v.len() - pos,
    {
        let ghost rest = lines_from(v@, pos as nat);
        let e = next_char_at(v, pos, '\n');
        proof {
            lemma_next_char_bounds(v@, pos as nat, '\n');
        }
        let ghost before = lines@;
        if e >= v.len() {
            let line = copy_range(v, pos, v.len());
            lines.push(line);
            assert(char_views(lines@) =~= char_views(before).push(line@));
            assert(lines_from(v@, v.len() as nat) =~= Seq::<Seq<char>>::empty());
            assert(char_views(lines@) + lines_from(v@, v.len() as nat) =~= char_views(before) + rest);
            pos = v.len();
        } else {
            let end = if e > pos && v[e - 1] == '\r' {
                e - 1
            } else {
                e
            };
            let line = copy_range(v, pos, end);
            assert(line@ =~= strip_cr(v@.subrange(pos as int, e as int)));
            lines.push(line);
            assert(char_views(lines@) =~= char_views(before).push(line@));
            assert(char_views(lines@) + lines_from(v@, (e + 1) as nat) =~= char_views(before) + rest);
            pos = e + 1;
        }
    }
    assert(lines_from(v@, pos as nat) =~= Seq::<Seq<char>>::empty());
    assert(char_views(lines@) =~= char_views(lines@) + lines_from(v@, pos as nat));
    lines
}

/// The pieces of `v` between separators `sep`, as `str::split` gives them.
pub(crate) fn split_on(v: &Vec<char>, sep: char) -> (r: Vec<Vec<char>>)
    ensures
        char_views(r@) == pieces(v@, 0, sep),
{
    let mut out: Vec<Vec<char>> = Vec::new();
    let mut pos: usize = 0;
    assert(char_views(out@) + pieces(v@, 0, sep) =~= pieces(v@, 0, sep));
    loop
        invariant_except_break
            pos <= v.len(),
            char_views(out@) + pieces(v@, pos as nat, sep) == pieces(v@, 0, sep),
        ensures
            char_views(out@) == pieces(v@, 0, sep),
        decreases v.len() - pos,
    {
        let ghost rest = pieces(v@, pos as nat, sep);
        let e = next_char_at(v, pos, sep);
        proof {
            lemma_next_char_bounds(v@, pos as nat, sep);
        }
        let ghost before = out@;
        if e >= v.len() {
            let piece = copy_range(v, pos, v.len());
            out.push(piece);
            assert(char_views(out@) =~= char_views(before).push(piece@));
            assert(char_views(out@) =~= char_views(before) + rest);
            break;
        } else {
            let piece = copy_range(v, pos, e);
            out.push(piece);
            assert(char_views(out@) =~= char_views(before).push(piece@));
            assert(char_views(out@) + pieces(v@, (e + 1) as nat, sep) =~= char_views(before) + rest);
            pos = e + 1;
        }
    }
    out
}

/// The critics a `supporting_critics` value names: its comma-separated
/// pieces, trimmed, empty ones dropped.
pub(crate) fn critics_of(value: &Vec<char>) -> (r: Vec<AgentId>)
    ensures
        id_views(r@) == critic_names(pieces(value@, 0, ',')),
{
    let ps = split_on(value, ',');
    let ghost pv = char_views(ps@);
    let mut out: Vec<AgentId> = Vec::new();
    let mut i: usize = 0;
    while i < ps.len()
        invariant
            i <= ps@.len(),
            pv == char_views(ps@),
            id_views(out@) == critic_names(pv.take(i as int)),
        decreases ps@.len() - i,
    {
        let p = &ps[i];
        let (a, b) = trim_bounds(p, 0, p.len());
        assert(p@.subrange(0, p@.len() as int) =~= p@);
        assert(pv.take(i + 1).drop_last() =~= pv.take(i as int));
        if a < b {
            let name = string_from_chars(p, a, b);
            let ghost before = out@;
            out.push(AgentId::from_string(name));
            assert(id_views(out@) =~= id_views(before).push(name@));
        }
        assert(id_views(out@) =~= critic_names(pv.take(i + 1)));
        i = i + 1;
    }
    assert(pv.take(i as int) =~= pv);
    out
}

/// The severity a value names, compared lowercased; any other value means
/// `Major`.
fn parse_severity(value: &str) -> (r: Severity)
    ensures
        r == severity_of_label(lowercase(value@)),
{
    let lower = to_lowercase(value);
    let t = lower.as_str();
    proof {
        reveal_strlit("info");
        reveal_strlit("minor");
        reveal_strlit("major");
        reveal_strlit("blocker");
    }
    if crate::text::str_eq(t, "info") {
        Severity::Info
    } else if crate::text::str_eq(t, "minor") {
        Severity::Minor
    } else if crate::text::str_eq(t, "major") {
        Severity::Major
    } else if crate::text::str_eq(t, "blocker") {
        Severity::Blocker
    } else {
        Severity::Major
    }
}

/// The fields read so far from a block.
struct BlockFields {
    severity: Option<Severity>,
    category: Option<String>,
    summary: Option<String>,
    location: Option<String>,
    quote: Option<String>,
    suggested_change: Option<String>,
    supporting: Vec<AgentId>,
}

impl View for BlockFields {
    type V = Draft;

    closed spec fn view(&self) -> Draft {
        Draft {
            severity: self.severity,
            category: opt_view(self.category),
            summary: opt_view(self.summary),
            location: opt_view(self.location),
            quote: opt_view(self.quote),
            suggested_change: opt_view(self.suggested_change),
            supporting: id_views(self.supporting@),
        }
    }
}

impl BlockFields {
    fn new() -> (r: Self)
        ensures
            r@ == empty_draft(),
    {
        let r = BlockFields {
            severity: None,
            category: None,
            summary: None,
            location: None,
            quote: None,
            suggested_change: None,
            supporting: Vec::new(),
        };
        assert(id_views(r.supporting@) =~= Seq::<Seq<char>>::empty());
        r
    }

    /// Reads one `key: value` line.
    fn read_line(&mut self, line: &Vec<char>)
        ensures
            final(self)@ == apply_line(old(self)@, line@),
    {
        let p = next_char_at(line, 0, ':');
        proof {
            lemma_next_char_bounds(line@, 0, ':');
        }
        if p >= line.len() {
            return;
        }
        let (ka, kb) = trim_bounds(line, 0, p);
        let (va, vb) = trim_bounds(line, p + 1, line.len());
        let ghost key = trim(line@.subrange(0, p as int));
        let ghost value = trim(line@.subrange(p + 1, line@.len() as int));
        assert(key == line@.subrange(ka as int, kb as int));
        assert(value == line@.subrange(va as int, vb as int));
        if range_eq_str(line, ka, kb, "severity") {
            let v = string_from_chars(line, va, vb);
            self.severity = Some(parse_severity(v.as_str()));
        } else if range_eq_str(line, ka, kb, "category") {
            self.category = Some(string_from_chars(line, va, vb));
        } else if range_eq_str(line, ka, kb, "summary") {
            self.summary = Some(string_from_chars(line, va, vb));
        } else if range_eq_str(line, ka, kb, "location") {
            self.location = Some(string_from_chars(line, va, vb));
        } else if range_eq_str(line, ka, kb, "quote") {
            self.quote = Some(string_from_chars(line, va, vb));
        } else if range_eq_str(line, ka, kb, "suggested_change") {
            self.suggested_change = Some(string_from_chars(line, va, vb));
        } else if range_eq_str(line, ka, kb, "supporting_critics") {
            let value_chars = copy_range(line, va, vb);
            self.supporting = critics_of(&value_chars);
        }
    }
}

/// Parses one block's `key: value` lines into a finding; `None` when the
/// block has no `summary` line.
fn parse_block(block: &Vec<char>) -> (r: Option<Finding>)
    ensures
        match r {
            Some(f) => block_finding(block@) == Some(f@),
            None => block_finding(block@) is None,
        },
{
    let lines = split_lines(block);
    let ghost ls = char_views(lines@);
    let mut fields = BlockFields::new();
    let mut i: usize = 0;
    while i < lines.len()
        invariant
            i <= lines@.len(),
            ls == char_views(lines@),
            fields@ == apply_lines(ls.take(i as int)),
        decreases lines@.len() - i,
    {
        fields.read_line(&lines[i]);
        assert(ls.take(i + 1).drop_last() =~= ls.take(i as int));
        i = i + 1;
    }
    assert(ls.take(i as int) =~= ls);
    let BlockFields { severity, category, summary, location, quote, suggested_change, supporting } =
        fields;
    match summary {
        None => None,
        Some(s) => {
            let sev = match severity {
                Some(v) => v,
                None => Severity::Major,
            };
            Some(
                Finding::new(sev, s.as_str()).with_category_opt(category).with_location_opt(
                    location,
                ).with_quote_opt(quote).with_suggested_change_opt(
                    suggested_change,
                ).with_supporting_critics(supporting),
            )
        },
    }
}

/// Parses a summarizer response into findings: one per
/// ` ```praxis-finding ` block that has a `summary` line, in order. An
/// unrecognized severity means `Major`; absent optional fields stay empty.
pub fn parse_findings(body: &str) -> (r: Vec<Finding>)
    ensures
        finding_views(r@) == parsed_findings(body@),
{
    let chars = chars_of(body);
    let blocks = extract_finding_blocks(&chars);
    let ghost bs = char_views(blocks@);
    let mut findings: Vec<Finding> = Vec::new();
    let mut i: usize = 0;
    while i < blocks.len()
        invariant
            i <= blocks@.len(),
            bs == char_views(blocks@),
            finding_views(findings@) == findings_of_blocks(bs.take(i as int)),
        decreases blocks@.len() - i,
    {
        assert(bs.take(i + 1).drop_last() =~= bs.take(i as int));
        let ghost before = findings@;
        match parse_block(&blocks[i]) {
            Some(f) => {
                findings.push(f);
                assert(finding_views(findings@) =~= finding_views(before).push(f@));
            },
            None => {},
        }
        assert(finding_views(findings@) =~= findings_of_blocks(bs.take(i + 1)));
        i = i + 1;
    }
    assert(bs.take(i as int) =~= bs);
    findings
}

/// The instructions the summarizer model is given.
pub const SUMMARY_SYSTEM_PROMPT: &'static str = "You are summarizing a multi-critic peer review. Group the critiques into distinct issues. Emit ONE fenced code block per issue, tagged ```praxis-finding```, with these fields (one per line, `key: value`):\nseverity: (info|minor|major|blocker)\ncategory: (a short label)\nsummary: (the issue, one line)\nlocation: (where in the document, e.g. §2 or line 47)\nquote: (the excerpt being critiqued)\nsuggested_change: (an actionable recommended change)\nsupporting_critics: (comma-separated critic names)\n\nAll fields except `severity` and `summary` are optional. Cluster issues that multiple critics raised; list them in supporting_critics. Do not emit prose outside the blocks.";

/// A chat message in the summarizer conversation.
#[derive(Debug)]
pub struct SummaryMessage {
    /// `system` or `user`.
    pub role: String,
    /// The message content.
    pub content: String,
}

impl Clone for SummaryMessage {
    fn clone(&self) -> (r: Self)
        ensures
            r.role@ == self.role@,
            r.content@ == self.content@,
    {
        SummaryMessage { role: self.role.clone(), content: self.content.clone() }
    }
}

/// The line of the summarizer prompt for one transcript turn:
/// `[{sender}] (critic) {kind}: {text}`.
pub open spec fn turn_line(m: MessageView) -> Seq<char> {
    "["@ + m.sender + "] (critic) "@ + kind_label(m.kind) + ": "@ + m.text + "\n"@
}

/// The lines of all turns, in order.
pub open spec fn turn_lines(ms: Seq<MessageView>) -> Seq<char>
    decreases ms.len(),
{
    if ms.len() == 0 {
        Seq::empty()
    } else {
        turn_lines(ms.drop_last()) + turn_line(ms.last())
    }
}

/// The user turn of the summarizer: the subject text, then the transcript.
pub open spec fn summary_user_prompt(text: Seq<char>, ms: Seq<MessageView>) -> Seq<char> {
    "# Document under critique\n\n"@ + text + "\n\n# Critique transcript\n\n"@ + turn_lines(ms)
}

/// Renders the summarizer conversation: a system turn with
/// [`SUMMARY_SYSTEM_PROMPT`], then a user turn carrying the subject text and
/// every transcript turn.
pub fn render_summary_prompt(subject: &Subject, transcript: &Transcript) -> (r: Vec<SummaryMessage>)
    ensures
        r@.len() == 2,
        r@[0].role@ == "system"@,
        r@[0].content@ == SUMMARY_SYSTEM_PROMPT@,
        r@[1].role@ == "user"@,
        r@[1].content@ == summary_user_prompt(subject@.text, transcript@),
{
    let mut user = string_of("# Document under critique\n\n");
    push_str(&mut user, subject.text());
    push_str(&mut user, "\n\n# Critique transcript\n\n");
    let ghost head = user@;
    let ghost ms = transcript@;
    let mut i: usize = 0;
    while i < transcript.len()
        invariant
            i <= ms.len(),
            ms == transcript@,
            user@ == head + turn_lines(ms.take(i as int)),
        decreases ms.len() - i,
    {
        let m = transcript.get(i);
        push_str(&mut user, "[");
        push_str(&mut user, m.sender().as_str());
        push_str(&mut user, "] (critic) ");
        push_str(&mut user, m.kind().label());
        push_str(&mut user, ": ");
        push_str(&mut user, m.text());
        push_str(&mut user, "\n");
        assert(ms.take(i + 1).drop_last() =~= ms.take(i as int));
        assert(user@ =~= head + turn_lines(ms.take(i + 1)));
        i = i + 1;
    }
    assert(ms.take(i as int) =~= ms);
    let mut r: Vec<SummaryMessage> = Vec::new();
    r.push(SummaryMessage { role: string_of("system"), content: string_of(SUMMARY_SYSTEM_PROMPT) });
    r.push(SummaryMessage { role: string_of("user"), content: user });
    r
}

/// The findings a parsed summarizer reply gives, or the detail of the
/// failure when the reply is not JSON or has no content.
pub open spec fn summary_outcome(outcome: Result<Option<Seq<char>>, Seq<char>>) -> Result<Seq<FindingView>, Seq<char>> {
    match outcome {
        Err(e) => Err("invalid JSON: "@ + e),
        Ok(None) => Err("response had no choices[0].message.content"@),
        Ok(Some(c)) => Ok(parsed_findings(c)),
    }
}

/// Whether `e` is a summary failure with `detail`.
pub open spec fn is_summary_failure(e: PraxisError, detail: Seq<char>) -> bool {
    e matches PraxisError::SummaryFailed { detail: d } && d@ == detail
}

/// Turns a parsed summarizer reply into findings: the content is parsed
/// with [`parse_findings`]; a reply that is not JSON or has no content is a
/// summary failure.
pub fn findings_from_completion(outcome: Result<Option<String>, String>) -> (r: Result<Vec<Finding>, PraxisError>)
    ensures
        match (r, summary_outcome(
            match outcome {
                Ok(Some(c)) => Ok(Some(c@)),
                Ok(None) => Ok(None),
                Err(e) => Err(e@),
            },
        )) {
            (Ok(fs), Ok(v)) => finding_views(fs@) == v,
            (Err(e), Err(d)) => is_summary_failure(e, d),
            _ => false,
        },
{
    match outcome {
        Err(e) => {
            let mut detail = string_of("invalid JSON: ");
            push_str(&mut detail, e.as_str());
            Err(PraxisError::summary_failed(detail.as_str()))
        },
        Ok(None) => {
            proof {
                reveal_strlit("response had no choices[0].message.content");
            }
            Err(PraxisError::summary_failed("response had no choices[0].message.content"))
        },
        Ok(Some(c)) => Ok(parse_findings(c.as_str())),
    }
}

/// Turns the body of a successful summarizer reply into findings.
pub fn findings_from_body(body: &str) -> (r: Result<Vec<Finding>, PraxisError>)
    ensures
        match (r, summary_outcome(completion_content(body@))) {
            (Ok(fs), Ok(v)) => finding_views(fs@) == v,
            (Err(e), Err(d)) => is_summary_failure(e, d),
            _ => false,
        },
{
    findings_from_completion(read_completion_content(body))
}

} // verus!
