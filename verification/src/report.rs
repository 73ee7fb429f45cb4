//! The report: synthesized findings and markdown rendering.
//!
//! A [`Report`] is produced by folding a [`Transcript`]: every
//! [`MessageKind::Critique`] becomes a [`Finding`]; prompts, questions and
//! the other kinds are skipped.

use crate::agent::AgentId;
use crate::graph::id_views;
use crate::message::{MessageKind, MessageView};
use crate::persona::{clone_opt, opt_view};
use crate::text::{decimal, decimal_string, join_strings, push_str, seq_join, string_of, views};
use crate::transcript::Transcript;
use vstd::prelude::*;

verus! {

/// How serious a [`Finding`] is, from least to most serious:
/// `Info < Minor < Major < Blocker`.
#[derive(Debug, Clone, Copy, PartialEq, Eq, Structural, PartialOrd, Ord)]
pub enum Severity {
    /// A neutral observation or note.
    Info,
    /// A minor issue worth flagging.
    Minor,
    /// A substantive problem that should be addressed.
    Major,
    /// A problem that blocks acceptance of the document as-is.
    Blocker,
}

/// The rank of a severity in its order: `Info` is 0, `Blocker` is 3.
pub open spec fn severity_rank(s: Severity) -> nat {
    match s {
        Severity::Info => 0,
        Severity::Minor => 1,
        Severity::Major => 2,
        Severity::Blocker => 3,
    }
}

/// The lowercase label of a severity.
pub open spec fn severity_label(s: Severity) -> Seq<char> {
    match s {
        Severity::Info => "info"@,
        Severity::Minor => "minor"@,
        Severity::Major => "major"@,
        Severity::Blocker => "blocker"@,
    }
}

impl Severity {
    /// A lowercase label suitable for rendering.
    pub fn label(&self) -> (r: &'static str)
        ensures
            r@ == severity_label(*self),
    {
        match self {
            Severity::Info => "info",
            Severity::Minor => "minor",
            Severity::Major => "major",
            Severity::Blocker => "blocker",
        }
    }

    /// The position of this severity in the order `Info < Minor < Major <
    /// Blocker`, from 0 to 3.
    pub fn rank(&self) -> (r: u8)
        ensures
            r == severity_rank(*self),
    {
        match self {
            Severity::Info => 0,
            Severity::Minor => 1,
            Severity::Major => 2,
            Severity::Blocker => 3,
        }
    }
}

/// The abstract content of a finding.
pub struct FindingView {
    pub severity: Severity,
    pub category: Option<Seq<char>>,
    pub summary: Seq<char>,
    pub location: Option<Seq<char>>,
    pub quote: Option<Seq<char>>,
    pub suggested_change: Option<Seq<char>>,
    /// The ids of the supporting critics, in order.
    pub supporting: Seq<Seq<char>>,
}

/// A single synthesized critique finding: one distinct issue raised (and
/// possibly corroborated) across the critic panel.
#[derive(Debug)]
pub struct Finding {
    /// How serious this finding is.
    pub severity: Severity,
    /// A freeform category, e.g. "methodology", "falsifiability".
    pub category: Option<String>,
    /// The issue, in one line.
    pub summary: String,
    /// Where in the subject the issue lives, e.g. "§2", "line 47".
    pub location: Option<String>,
    /// The excerpt of the subject being critiqued.
    pub quote: Option<String>,
    /// An actionable recommended change.
    pub suggested_change: Option<String>,
    /// The critics that raised or agreed with this finding.
    supporting_critics: Vec<AgentId>,
}

impl View for Finding {
    type V = FindingView;

    closed spec fn view(&self) -> FindingView {
        FindingView {
            severity: self.severity,
            category: opt_view(self.category),
            summary: self.summary@,
            location: opt_view(self.location),
            quote: opt_view(self.quote),
            suggested_change: opt_view(self.suggested_change),
            supporting: id_views(self.supporting_critics@),
        }
    }
}

/// `o` with `v` in place of its value when `v` is `Some`.
pub open spec fn override_opt(o: Option<Seq<char>>, v: Option<Seq<char>>) -> Option<Seq<char>> {
    match v {
        Some(x) => Some(x),
        None => o,
    }
}

impl Finding {
    /// Creates a minimal finding with a severity and summary; the optional
    /// fields start empty and there are no supporting critics.
    pub fn new(severity: Severity, summary: &str) -> (r: Self)
        ensures
            r@ == (FindingView {
                severity,
                category: None,
                summary: summary@,
                location: None,
                quote: None,
                suggested_change: None,
                supporting: Seq::empty(),
            }),
    {
        let r = Finding {
            severity,
            category: None,
            summary: string_of(summary),
            location: None,
            quote: None,
            suggested_change: None,
            supporting_critics: Vec::new(),
        };
        assert(id_views(r.supporting_critics@) =~= Seq::<Seq<char>>::empty());
        r
    }

    /// Sets the category.
    pub fn with_category(self, category: &str) -> (r: Self)
        ensures
            r@ == (FindingView { category: Some(category@), ..self@ }),
    {
        Finding { category: Some(string_of(category)), ..self }
    }

    /// Sets the category only if `category` is `Some`.
    pub fn with_category_opt(self, category: Option<String>) -> (r: Self)
        ensures
            r@ == (FindingView { category: override_opt(self@.category, opt_view(category)), ..self@ }),
    {
        match category {
            Some(c) => Finding { category: Some(c), ..self },
            None => self,
        }
    }

    /// Sets the location.
    pub fn with_location(self, location: &str) -> (r: Self)
        ensures
            r@ == (FindingView { location: Some(location@), ..self@ }),
    {
        Finding { location: Some(string_of(location)), ..self }
    }

    /// Sets the location only if `location` is `Some`.
    pub fn with_location_opt(self, location: Option<String>) -> (r: Self)
        ensures
            r@ == (FindingView { location: override_opt(self@.location, opt_view(location)), ..self@ }),
    {
        match location {
            Some(l) => Finding { location: Some(l), ..self },
            None => self,
        }
    }

    /// Sets the quote.
    pub fn with_quote(self, quote: &str) -> (r: Self)
        ensures
            r@ == (FindingView { quote: Some(quote@), ..self@ }),
    {
        Finding { quote: Some(string_of(quote)), ..self }
    }

    /// Sets the quote only if `quote` is `Some`.
    pub fn with_quote_opt(self, quote: Option<String>) -> (r: Self)
        ensures
            r@ == (FindingView { quote: override_opt(self@.quote, opt_view(quote)), ..self@ }),
    {
        match quote {
            Some(q) => Finding { quote: Some(q), ..self },
            None => self,
        }
    }

    /// Sets the suggested change.
    pub fn with_suggested_change(self, change: &str) -> (r: Self)
        ensures
            r@ == (FindingView { suggested_change: Some(change@), ..self@ }),
    {
        Finding { suggested_change: Some(string_of(change)), ..self }
    }

    /// Sets the suggested change only if `change` is `Some`.
    pub fn with_suggested_change_opt(self, change: Option<String>) -> (r: Self)
        ensures
            r@ == (FindingView {
                suggested_change: override_opt(self@.suggested_change, opt_view(change)),
                ..self@
            }),
    {
        match change {
            Some(c) => Finding { suggested_change: Some(c), ..self },
            None => self,
        }
    }

    /// Sets the supporting critics.
    pub fn with_supporting_critics(self, critics: Vec<AgentId>) -> (r: Self)
        ensures
            r@ == (FindingView { supporting: id_views(critics@), ..self@ }),
    {
        Finding { supporting_critics: critics, ..self }
    }

    /// How serious this finding is.
    pub fn severity(&self) -> (r: &Severity)
        ensures
            *r == self@.severity,
    {
        &self.severity
    }

    /// The issue, in one line.
    pub fn summary(&self) -> (r: &str)
        ensures
            r@ == self@.summary,
    {
        self.summary.as_str()
    }

    /// The critics that raised or agreed with this finding.
    pub fn supporting_critics(&self) -> (r: &[AgentId])
        ensures
            id_views(r@) == self@.supporting,
    {
        self.supporting_critics.as_slice()
    }

    /// The first supporting critic, if any.
    pub fn author(&self) -> (r: Option<&AgentId>)
        ensures
            match r {
                Some(a) => self@.supporting.len() > 0 && a@ == self@.supporting[0],
                None => self@.supporting.len() == 0,
            },
    {
        if self.supporting_critics.len() == 0 {
            None
        } else {
            Some(&self.supporting_critics[0])
        }
    }
}

impl Clone for Finding {
    fn clone(&self) -> (r: Self)
        ensures
            r@ == self@,
    {
        let mut critics: Vec<AgentId> = Vec::new();
        let mut i: usize = 0;
        while i < self.supporting_critics.len()
            invariant
                i <= self.supporting_critics@.len(),
                critics@ == self.supporting_critics@.take(i as int),
            decreases self.supporting_critics@.len() - i,
        {
            critics.push(self.supporting_critics[i].clone());
            i = i + 1;
            assert(critics@ =~= self.supporting_critics@.take(i as int));
        }
        assert(self.supporting_critics@.take(i as int) =~= self.supporting_critics@);
        Finding {
            severity: self.severity,
            category: clone_opt(&self.category),
            summary: self.summary.clone(),
            location: clone_opt(&self.location),
            quote: clone_opt(&self.quote),
            suggested_change: clone_opt(&self.suggested_change),
            supporting_critics: critics,
        }
    }
}

/// The findings of `fs` at severity `s`, in order.
pub open spec fn of_severity(fs: Seq<FindingView>, s: Severity) -> Seq<FindingView>
    decreases fs.len(),
{
    if fs.len() == 0 {
        Seq::empty()
    } else {
        of_severity(fs.drop_last(), s) + if fs.last().severity == s {
            seq![fs.last()]
        } else {
            Seq::empty()
        }
    }
}

/// The findings sorted by severity, most serious first; findings of equal
/// severity keep their order.
pub open spec fn by_severity_desc(fs: Seq<FindingView>) -> Seq<FindingView> {
    of_severity(fs, Severity::Blocker) + of_severity(fs, Severity::Major) + of_severity(
        fs,
        Severity::Minor,
    ) + of_severity(fs, Severity::Info)
}

/// The finding a critique message folds into: `Major`, its text as the
/// summary, its sender as the only supporting critic.
pub open spec fn critique_finding(m: MessageView) -> FindingView {
    FindingView {
        severity: Severity::Major,
        category: None,
        summary: m.text,
        location: None,
        quote: None,
        suggested_change: None,
        supporting: seq![m.sender],
    }
}

/// The findings folded from a transcript: one per critique, in order.
pub open spec fn critique_findings(ms: Seq<MessageView>) -> Seq<FindingView>
    decreases ms.len(),
{
    if ms.len() == 0 {
        Seq::empty()
    } else {
        critique_findings(ms.drop_last()) + if ms.last().kind == MessageKind::Critique {
            seq![critique_finding(ms.last())]
        } else {
            Seq::empty()
        }
    }
}

/// A `- **Label:** value` line of a finding, present only when the field is.
pub open spec fn field_line(prefix: Seq<char>, v: Option<Seq<char>>) -> Seq<char> {
    match v {
        Some(x) => prefix + x + "\n"@,
        None => Seq::empty(),
    }
}

/// The attribution line of a finding, present only when it has supporting
/// critics.
pub open spec fn raised_by_line(critics: Seq<Seq<char>>) -> Seq<char> {
    if critics.len() == 0 {
        Seq::empty()
    } else {
        "- **Raised by:** "@ + seq_join(critics, ", "@) + "\n"@
    }
}

/// The heading of the `n`-th finding: `## {n}. [{label}] {summary}`.
pub open spec fn block_heading(n: nat, f: FindingView) -> Seq<char> {
    "## "@ + decimal(n) + ". ["@ + severity_label(f.severity) + "] "@ + f.summary + "\n\n"@
}

/// The optional field lines of a finding, in their fixed order.
pub open spec fn field_lines(f: FindingView) -> Seq<char> {
    field_line("- **Category:** "@, f.category) + field_line("- **Location:** "@, f.location)
        + field_line("- **Quote:** > "@, f.quote) + field_line(
        "- **Suggested change:** "@,
        f.suggested_change,
    )
}

/// The markdown block of the `n`-th finding.
pub open spec fn finding_block(n: nat, f: FindingView) -> Seq<char> {
    block_heading(n, f) + field_lines(f) + raised_by_line(f.supporting) + "\n"@
}

/// The blocks of `fs`, numbered from `start + 1` on.
pub open spec fn blocks_from(fs: Seq<FindingView>, start: nat) -> Seq<char>
    decreases fs.len(),
{
    if fs.len() == 0 {
        Seq::empty()
    } else {
        blocks_from(fs.drop_last(), start) + finding_block(start + fs.len(), fs.last())
    }
}

/// The executive summary line: the number of findings and the count at
/// each severity.
pub open spec fn summary_line(fs: Seq<FindingView>) -> Seq<char> {
    "**Findings:** "@ + decimal(fs.len()) + " ("@ + decimal(of_severity(fs, Severity::Blocker).len())
        + " blocker, "@ + decimal(of_severity(fs, Severity::Major).len()) + " major, "@ + decimal(
        of_severity(fs, Severity::Minor).len(),
    ) + " minor, "@ + decimal(of_severity(fs, Severity::Info).len()) + " info)\n\n"@
}

/// The header line naming the subject, present only when it is known.
pub open spec fn source_line(source: Option<Seq<char>>) -> Seq<char> {
    match source {
        Some(s) => "**Subject:** `"@ + s + "`\n\n"@,
        None => Seq::empty(),
    }
}

/// The markdown digest of a report: title, subject line, then either
/// "No findings." or the executive summary followed by the findings, most
/// serious first.
pub open spec fn render_markdown(fs: Seq<FindingView>, source: Option<Seq<char>>) -> Seq<char> {
    "# Critique Report\n\n"@ + source_line(source) + if fs.len() == 0 {
        "No findings.\n"@
    } else {
        summary_line(fs) + blocks_from(by_severity_desc(fs), 0)
    }
}

/// The views of a sequence of findings.
pub open spec fn finding_views(fs: Seq<Finding>) -> Seq<FindingView> {
    fs.map_values(|f: Finding| f@)
}

/// The four severity classes partition the findings.
pub proof fn lemma_severity_partition(fs: Seq<FindingView>)
    ensures
        of_severity(fs, Severity::Blocker).len() + of_severity(fs, Severity::Major).len()
            + of_severity(fs, Severity::Minor).len() + of_severity(fs, Severity::Info).len()
            == fs.len(),
    decreases fs.len(),
{
    if fs.len() > 0 {
        lemma_severity_partition(fs.drop_last());
    }
}

/// Numbering of concatenated blocks continues where the first part ends.
/// The blocks of four runs of findings, numbered on from one run to the
/// next, are the blocks of the four runs one after another.
proof fn lemma_blocks_four(a: Seq<FindingView>, b: Seq<FindingView>, c: Seq<FindingView>, d: Seq<FindingView>)
    ensures
        blocks_from(a + b + c + d, 0) == blocks_from(a, 0) + blocks_from(b, a.len()) + blocks_from(
            c,
            a.len() + b.len(),
        ) + blocks_from(d, a.len() + b.len() + c.len()),
{
    lemma_blocks_concat(a, b, 0);
    lemma_blocks_concat(a + b, c, 0);
    lemma_blocks_concat(a + b + c, d, 0);
}

proof fn lemma_blocks_concat(a: Seq<FindingView>, b: Seq<FindingView>, start: nat)
    ensures
        blocks_from(a + b, start) == blocks_from(a, start) + blocks_from(b, start + a.len()),
    decreases b.len(),
{
    if b.len() == 0 {
        assert(a + b =~= a);
    } else {
        lemma_blocks_concat(a, b.drop_last(), start);
        assert((a + b).drop_last() =~= a + b.drop_last());
        assert((a + b).last() == b.last());
    }
}

/// Writes the markdown block of the `n`-th finding.
fn render_finding(f: &Finding, n: usize, out: &mut String)
    ensures
        final(out)@ == old(out)@ + finding_block(n as nat, f@),
{
    let ghost o0 = out@;
    push_str(out, "## ");
    let num = decimal_string(n as u64);
    push_str(out, num.as_str());
    push_str(out, ". [");
    push_str(out, f.severity.label());
    push_str(out, "] ");
    push_str(out, f.summary.as_str());
    push_str(out, "\n\n");
    let ghost o1 = out@;
    assert(o1 =~= o0 + block_heading(n as nat, f@));
    render_field(out, "- **Category:** ", &f.category);
    render_field(out, "- **Location:** ", &f.location);
    render_field(out, "- **Quote:** > ", &f.quote);
    render_field(out, "- **Suggested change:** ", &f.suggested_change);
    let ghost o2 = out@;
    assert(o2 =~= o1 + field_lines(f@));
    render_raised_by(&f.supporting_critics, out);
    push_str(out, "\n");
    assert(out@ =~= o0 + finding_block(n as nat, f@));
}

/// Writes the attribution line of a finding with supporting critics
/// `critics`.
fn render_raised_by(critics: &Vec<AgentId>, out: &mut String)
    ensures
        final(out)@ == old(out)@ + raised_by_line(id_views(critics@)),
{
    if critics.len() == 0 {
        assert(out@ =~= old(out)@ + raised_by_line(id_views(critics@)));
        return;
    }
    let mut names: Vec<String> = Vec::new();
    let mut i: usize = 0;
    while i < critics.len()
        invariant
            i <= critics@.len(),
            views(names@) == id_views(critics@).take(i as int),
        decreases critics@.len() - i,
    {
        let name = string_of(critics[i].as_str());
        let ghost before = names@;
        names.push(name);
        assert(views(names@) =~= views(before).push(name@));
        i = i + 1;
        assert(views(names@) =~= id_views(critics@).take(i as int));
    }
    assert(id_views(critics@).take(i as int) =~= id_views(critics@));
    let joined = join_strings(&names, ", ");
    push_str(out, "- **Raised by:** ");
    push_str(out, joined.as_str());
    push_str(out, "\n");
    assert(out@ =~= old(out)@ + raised_by_line(id_views(critics@)));
}

/// Writes `prefix`, the value and a newline when the field is present.
fn render_field(out: &mut String, prefix: &str, v: &Option<String>)
    ensures
        final(out)@ == old(out)@ + field_line(prefix@, opt_view(*v)),
{
    match v {
        Some(x) => {
            push_str(out, prefix);
            push_str(out, x.as_str());
            push_str(out, "\n");
            assert(out@ =~= old(out)@ + field_line(prefix@, opt_view(*v)));
        },
        None => {
            assert(out@ =~= old(out)@ + field_line(prefix@, opt_view(*v)));
        },
    }
}

/// A synthesized critique report: the findings folded from a transcript.
#[derive(Debug)]
pub struct Report {
    findings: Vec<Finding>,
}

impl View for Report {
    type V = Seq<FindingView>;

    closed spec fn view(&self) -> Seq<FindingView> {
        finding_views(self.findings@)
    }
}

impl Report {
    /// Creates an empty report.
    pub fn new() -> (r: Self)
        ensures
            r@ == Seq::<FindingView>::empty(),
    {
        let r = Report { findings: Vec::new() };
        assert(r@ =~= Seq::<FindingView>::empty());
        r
    }

    /// Appends a finding to the report.
    pub fn push_finding(&mut self, finding: Finding)
        ensures
            final(self)@ == old(self)@.push(finding@),
    {
        self.findings.push(finding);
        assert(finding_views(self.findings@) =~= finding_views(old(self).findings@).push(finding@));
    }

    /// Synthesizes a report from a transcript: every critique becomes a
    /// `Major` finding whose summary is the critique's text and whose only
    /// supporting critic is its sender, in transcript order.
    pub fn from_transcript(transcript: &Transcript) -> (r: Self)
        ensures
            r@ == critique_findings(transcript@),
    {
        let mut r = Report::new();
        let ghost ms = transcript@;
        let mut i: usize = 0;
        while i < transcript.len()
            invariant
                i <= ms.len(),
                ms == transcript@,
                r@ == critique_findings(ms.take(i as int)),
            decreases ms.len() - i,
        {
            let m = transcript.get(i);
            assert(ms.take(i + 1).drop_last() =~= ms.take(i as int));
            if m.kind() == MessageKind::Critique {
                let mut critics: Vec<AgentId> = Vec::new();
                critics.push(m.sender().clone());
                let f = Finding::new(Severity::Major, m.text()).with_supporting_critics(critics);
                assert(id_views(critics@) =~= seq![m@.sender]);
                r.push_finding(f);
                assert(r@ =~= critique_findings(ms.take(i + 1)));
            } else {
                assert(r@ =~= critique_findings(ms.take(i + 1)));
            }
            i = i + 1;
        }
        assert(ms.take(ms.len() as int) =~= ms);
        r
    }

    /// The findings in this report, in synthesis order.
    pub fn findings(&self) -> (r: &[Finding])
        ensures
            finding_views(r@) == self@,
    {
        self.findings.as_slice()
    }

    /// Counts the findings at a given severity.
    pub fn count(&self, severity: Severity) -> (r: usize)
        ensures
            r == of_severity(self@, severity).len(),
    {
        let ghost fs = self@;
        let mut n: usize = 0;
        let mut i: usize = 0;
        while i < self.findings.len()
            invariant
                i <= fs.len(),
                fs == self@,
                n == of_severity(fs.take(i as int), severity).len(),
                n <= i,
            decreases fs.len() - i,
        {
            assert(fs.take(i + 1).drop_last() =~= fs.take(i as int));
            assert(fs[i as int] == self.findings@[i as int]@);
            if self.findings[i].severity == severity {
                n = n + 1;
            }
            i = i + 1;
        }
        assert(fs.take(fs.len() as int) =~= fs);
        n
    }

    /// Writes the blocks of the findings at `severity`, numbered from
    /// `n + 1` on, and answers the number of the last block written.
    fn render_severity(&self, severity: Severity, n: usize, out: &mut String) -> (r: usize)
        requires
            n + of_severity(self@, severity).len() <= usize::MAX,
        ensures
            r == n + of_severity(self@, severity).len(),
            final(out)@ == old(out)@ + blocks_from(of_severity(self@, severity), n as nat),
    {
        let ghost fs = self@;
        let mut k: usize = n;
        let mut i: usize = 0;
        while i < self.findings.len()
            invariant
                i <= fs.len(),
                fs == self@,
                n + of_severity(fs, severity).len() <= usize::MAX,
                k == n + of_severity(fs.take(i as int), severity).len(),
                out@ == old(out)@ + blocks_from(of_severity(fs.take(i as int), severity), n as nat),
            decreases fs.len() - i,
        {
            let ghost before = of_severity(fs.take(i as int), severity);
            assert(fs.take(i + 1).drop_last() =~= fs.take(i as int));
            assert(fs[i as int] == self.findings@[i as int]@);
            proof {
                lemma_of_severity_prefix(fs, severity, i + 1);
                lemma_of_severity_take_len(fs, severity, i + 1);
            }
            if self.findings[i].severity == severity {
                let ghost after = before.push(fs[i as int]);
                assert(of_severity(fs.take(i + 1), severity) =~= after);
                assert(after.drop_last() =~= before);
                k = k + 1;
                render_finding(&self.findings[i], k, out);
            } else {
                assert(of_severity(fs.take(i + 1), severity) =~= before);
            }
            i = i + 1;
        }
        assert(fs.take(fs.len() as int) =~= fs);
        k
    }

    /// Writes the executive summary line.
    fn render_summary_line(&self, out: &mut String)
        ensures
            final(out)@ == old(out)@ + summary_line(self@),
    {
        push_str(out, "**Findings:** ");
        push_str(out, decimal_string(self.findings.len() as u64).as_str());
        push_str(out, " (");
        push_str(out, decimal_string(self.count(Severity::Blocker) as u64).as_str());
        push_str(out, " blocker, ");
        push_str(out, decimal_string(self.count(Severity::Major) as u64).as_str());
        push_str(out, " major, ");
        push_str(out, decimal_string(self.count(Severity::Minor) as u64).as_str());
        push_str(out, " minor, ");
        push_str(out, decimal_string(self.count(Severity::Info) as u64).as_str());
        push_str(out, " info)\n\n");
        assert(out@ =~= old(out)@ + summary_line(self@));
    }

    /// Writes the blocks of all findings, most serious first.
    #[verifier::spinoff_prover]
    fn render_blocks(&self, out: &mut String)
        ensures
            final(out)@ == old(out)@ + blocks_from(by_severity_desc(self@), 0),
    {
        let ghost fs = self@;
        let ghost o0 = out@;
        let ghost b = of_severity(fs, Severity::Blocker);
        let ghost m = of_severity(fs, Severity::Major);
        let ghost mi = of_severity(fs, Severity::Minor);
        let ghost inf = of_severity(fs, Severity::Info);
        proof {
            lemma_severity_partition(fs);
        }
        let total = self.findings.len();
        assert(fs.len() == total);
        assert(b.len() + m.len() + mi.len() + inf.len() == total);
        let n1 = self.render_severity(Severity::Blocker, 0, out);
        let n2 = self.render_severity(Severity::Major, n1, out);
        let n3 = self.render_severity(Severity::Minor, n2, out);
        let _n4 = self.render_severity(Severity::Info, n3, out);
        proof {
            lemma_blocks_four(b, m, mi, inf);
        }
        assert(out@ =~= o0 + blocks_from(by_severity_desc(fs), 0));
    }

    /// Renders the report as a digest: a header naming the subject (if
    /// known), an executive summary of counts by severity, then the findings
    /// sorted by severity, most serious first (ties keep their order).
    pub fn to_markdown_with_source(&self, source: Option<&str>) -> (r: String)
        ensures
            r@ == render_markdown(
                self@,
                match source {
                    Some(s) => Some(s@),
                    None => None,
                },
            ),
    {
        let ghost src = match source {
            Some(s) => Some(s@),
            None => None::<Seq<char>>,
        };
        let mut out = string_of("# Critique Report\n\n");
        match source {
            Some(s) => {
                push_str(&mut out, "**Subject:** `");
                push_str(&mut out, s);
                push_str(&mut out, "`\n\n");
            },
            None => {},
        }
        let ghost head = out@;
        assert(head =~= "# Critique Report\n\n"@ + source_line(src));
        if self.findings.len() == 0 {
            push_str(&mut out, "No findings.\n");
            return out;
        }
        let ghost fs = self@;
        self.render_summary_line(&mut out);
        let ghost mid = out@;
        self.render_blocks(&mut out);
        assert(out@ =~= head + (summary_line(fs) + blocks_from(by_severity_desc(fs), 0)));
        out
    }

    /// Renders the report as markdown, with no subject line.
    pub fn to_markdown(&self) -> (r: String)
        ensures
            r@ == render_markdown(self@, None),
    {
        self.to_markdown_with_source(None)
    }
}

impl Default for Report {
    fn default() -> (r: Self)
        ensures
            r@ == Seq::<FindingView>::empty(),
    {
        Report::new()
    }
}

/// A prefix has no more findings at a severity than the whole.
proof fn lemma_of_severity_take_len(fs: Seq<FindingView>, s: Severity, j: int)
    requires
        0 <= j <= fs.len(),
    ensures
        of_severity(fs.take(j), s).len() <= of_severity(fs, s).len(),
    decreases fs.len(),
{
    if j < fs.len() {
        assert(fs.drop_last().take(j) =~= fs.take(j));
        lemma_of_severity_take_len(fs.drop_last(), s, j);
    } else {
        assert(fs.take(j) =~= fs);
    }
}

/// `of_severity` over a prefix one longer unfolds by one step.
proof fn lemma_of_severity_prefix(fs: Seq<FindingView>, s: Severity, i: int)
    requires
        0 < i <= fs.len(),
    ensures
        of_severity(fs.take(i), s) == of_severity(fs.take(i - 1), s) + if fs[i - 1].severity == s {
            seq![fs[i - 1]]
        } else {
            Seq::empty()
        },
{
    assert(fs.take(i).drop_last() =~= fs.take(i - 1));
}

impl Clone for Report {
    fn clone(&self) -> (r: Self)
        ensures
            r@ == self@,
    {
        let mut findings: Vec<Finding> = Vec::new();
        let mut i: usize = 0;
        while i < self.findings.len()
            invariant
                i <= self.findings@.len(),
                finding_views(findings@) == finding_views(self.findings@).take(i as int),
            decreases self.findings@.len() - i,
        {
            let ghost before = findings@;
            let f = self.findings[i].clone();
            findings.push(f);
            assert(finding_views(findings@) =~= finding_views(before).push(f@));
            i = i + 1;
            assert(finding_views(findings@) =~= finding_views(self.findings@).take(i as int));
        }
        assert(finding_views(self.findings@).take(i as int) =~= finding_views(self.findings@));
        Report { findings }
    }
}

impl Report {
    /// The findings at `severity`, in report order, appended to `out`.
    fn collect_severity(&self, severity: Severity, out: &mut Vec<Finding>)
        ensures
            finding_views(final(out)@) == finding_views(old(out)@) + of_severity(self@, severity),
    {
        let ghost fs = self@;
        let ghost start = finding_views(out@);
        let mut i: usize = 0;
        while i < self.findings.len()
            invariant
                i <= fs.len(),
                fs == self@,
                finding_views(out@) == start + of_severity(fs.take(i as int), severity),
            decreases fs.len() - i,
        {
            let ghost before = out@;
            assert(fs.take(i + 1).drop_last() =~= fs.take(i as int));
            assert(fs[i as int] == self.findings@[i as int]@);
            if self.findings[i].severity == severity {
                let f = self.findings[i].clone();
                out.push(f);
                assert(finding_views(out@) =~= finding_views(before).push(f@));
            }
            assert(finding_views(out@) =~= start + of_severity(fs.take(i + 1), severity));
            i = i + 1;
        }
        assert(fs.take(i as int) =~= fs);
    }

    /// The findings in digest order: most serious first, findings of equal
    /// severity in report order.
    pub fn findings_by_severity(&self) -> (r: Vec<Finding>)
        ensures
            finding_views(r@) == by_severity_desc(self@),
    {
        let mut out: Vec<Finding> = Vec::new();
        assert(finding_views(out@) =~= Seq::<FindingView>::empty());
        self.collect_severity(Severity::Blocker, &mut out);
        self.collect_severity(Severity::Major, &mut out);
        self.collect_severity(Severity::Minor, &mut out);
        self.collect_severity(Severity::Info, &mut out);
        assert(finding_views(out@) =~= by_severity_desc(self@));
        out
    }
}

} // verus!
