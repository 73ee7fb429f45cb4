//! Critic personas — the lens an agent applies when critiquing — and the
//! built-in panel presets.


use crate::backend::credentials::{
    find_entry, keys, lookup, names_of, panel_view, spec_view, Credentials, CredentialsView,
    PersonaSpec,
};
use crate::error::PraxisError;
use crate::text::{push_str, str_eq, string_of, to_lowercase, views};
use vstd::prelude::*;

verus! {

/// The abstract content of a persona.
pub struct PersonaView {
    pub name: Seq<char>,
    pub framing: Option<Seq<char>>,
    pub focus: Option<Seq<char>>,
}

/// The view of an optional string.
pub open spec fn opt_view(o: Option<String>) -> Option<Seq<char>> {
    match o {
        Some(s) => Some(s@),
        None => None,
    }
}

/// A persona is data: a name, an optional framing sentence, and an optional
/// focus area.
#[derive(Debug)]
pub struct Persona {
    name: String,
    framing: Option<String>,
    focus: Option<String>,
}

impl View for Persona {
    type V = PersonaView;

    closed spec fn view(&self) -> PersonaView {
        PersonaView { name: self.name@, framing: opt_view(self.framing), focus: opt_view(self.focus) }
    }
}

/// Clones an optional string, keeping its value.
pub fn clone_opt(o: &Option<String>) -> (r: Option<String>)
    ensures
        r == *o,
{
    match o {
        Some(s) => Some(s.clone()),
        None => None,
    }
}

impl Clone for Persona {
    fn clone(&self) -> (r: Self)
        ensures
            r == *self,
    {
        Persona {
            name: self.name.clone(),
            framing: clone_opt(&self.framing),
            focus: clone_opt(&self.focus),
        }
    }
}

/// The persona with the given name, framing and focus.
pub open spec fn persona_spec(name: Seq<char>, framing: Seq<char>, focus: Seq<char>) -> PersonaView {
    PersonaView { name, framing: Some(framing), focus: Some(focus) }
}

impl Persona {
    /// Creates a persona with just a name.
    pub fn new(name: &str) -> (r: Self)
        ensures
            r@ == (PersonaView { name: name@, framing: None, focus: None }),
    {
        Persona { name: string_of(name), framing: None, focus: None }
    }

    /// Creates a persona with just a name, taking ownership of it.
    pub fn from_name(name: String) -> (r: Self)
        ensures
            r@ == (PersonaView { name: name@, framing: None, focus: None }),
    {
        Persona { name, framing: None, focus: None }
    }

    /// Sets the framing sentence.
    pub fn with_framing(self, framing: &str) -> (r: Self)
        ensures
            r@ == (PersonaView { framing: Some(framing@), ..self@ }),
    {
        Persona { framing: Some(string_of(framing)), ..self }
    }

    /// Sets the focus area.
    pub fn with_focus(self, focus: &str) -> (r: Self)
        ensures
            r@ == (PersonaView { focus: Some(focus@), ..self@ }),
    {
        Persona { focus: Some(string_of(focus)), ..self }
    }

    /// The persona's human-readable name.
    pub fn name(&self) -> (r: &str)
        ensures
            r@ == self@.name,
    {
        self.name.as_str()
    }

    /// The framing sentence, if set.
    pub fn framing(&self) -> (r: Option<&str>)
        ensures
            match r {
                Some(s) => self@.framing == Some(s@),
                None => self@.framing is None,
            },
    {
        match &self.framing {
            Some(s) => Some(s.as_str()),
            None => None,
        }
    }

    /// The focus area, if set.
    pub fn focus(&self) -> (r: Option<&str>)
        ensures
            match r {
                Some(s) => self@.focus == Some(s@),
                None => self@.focus is None,
            },
    {
        match &self.focus {
            Some(s) => Some(s.as_str()),
            None => None,
        }
    }

    /// The default critic panel: a single Devil's Advocate.
    pub fn default_panel() -> (r: Vec<Persona>)
        ensures
            r@.len() == 1,
            r@[0]@ == archetype(0),
    {
        let mut v = Vec::new();
        v.push(devils_advocate());
        v
    }

    /// The built-in archetype personas, in canonical order: Devil's Advocate,
    /// Methodologist, Red Team, Domain Expert, Editor.
    pub fn archetypes() -> (r: Vec<Persona>)
        ensures
            r@.len() == 5,
            forall|i: int| 0 <= i < 5 ==> #[trigger] r@[i]@ == archetype(i),
    {
        let mut v = Vec::new();
        v.push(devils_advocate());
        v.push(
            Persona::new("Methodologist").with_framing("Scrutinize the rigor of every claim.").with_focus(
                "proof gaps and methodological soundness",
            ),
        );
        v.push(
            Persona::new("Red Team").with_framing("Find how this fails in practice.").with_focus(
                "failure modes and adversarial conditions",
            ),
        );
        v.push(
            Persona::new("Domain Expert").with_framing(
                "Evaluate against the domain state of the art.",
            ).with_focus("technical accuracy and novelty"),
        );
        v.push(
            Persona::new("Editor").with_framing("Improve clarity and structure.").with_focus(
                "readability and missing context",
            ),
        );
        v
    }
}

fn devils_advocate() -> (r: Persona)
    ensures
        r@ == archetype(0),
{
    Persona::new("Devil's Advocate").with_framing("Assume the proposal is wrong; find how.").with_focus(
        "logical gaps and unsupported assumptions",
    )
}

/// The `i`-th built-in archetype.
pub open spec fn archetype(i: int) -> PersonaView {
    if i == 0 {
        persona_spec(
            "Devil's Advocate"@,
            "Assume the proposal is wrong; find how."@,
            "logical gaps and unsupported assumptions"@,
        )
    } else if i == 1 {
        persona_spec(
            "Methodologist"@,
            "Scrutinize the rigor of every claim."@,
            "proof gaps and methodological soundness"@,
        )
    } else if i == 2 {
        persona_spec(
            "Red Team"@,
            "Find how this fails in practice."@,
            "failure modes and adversarial conditions"@,
        )
    } else if i == 3 {
        persona_spec(
            "Domain Expert"@,
            "Evaluate against the domain state of the art."@,
            "technical accuracy and novelty"@,
        )
    } else {
        persona_spec(
            "Editor"@,
            "Improve clarity and structure."@,
            "readability and missing context"@,
        )
    }
}

/// A built-in named panel preset.
#[derive(Debug, Clone, Copy, PartialEq, Eq, Structural)]
pub enum Panel {
    /// Single Devil's Advocate.
    Default,
    /// Devil's Advocate + Methodologist.
    Duo,
    /// All five archetypes.
    Panel,
}

/// How many archetypes a preset holds.
pub open spec fn panel_size(p: Panel) -> int {
    match p {
        Panel::Default => 1,
        Panel::Duo => 2,
        Panel::Panel => 5,
    }
}

/// The canonical name of a preset.
pub open spec fn panel_name(p: Panel) -> Seq<char> {
    match p {
        Panel::Default => "default"@,
        Panel::Duo => "duo"@,
        Panel::Panel => "panel"@,
    }
}

/// The preset whose canonical name is `t`, if any.
pub open spec fn panel_of_name(t: Seq<char>) -> Option<Panel> {
    if t == "default"@ {
        Some(Panel::Default)
    } else if t == "duo"@ {
        Some(Panel::Duo)
    } else if t == "panel"@ {
        Some(Panel::Panel)
    } else {
        None
    }
}

impl Panel {
    /// The personas in this preset, in canonical order: the first
    /// `panel_size` archetypes.
    pub fn personas(&self) -> (r: Vec<Persona>)
        ensures
            r@.len() == panel_size(*self),
            forall|i: int| 0 <= i < r@.len() ==> #[trigger] r@[i]@ == archetype(i),
    {
        let mut all = Persona::archetypes();
        let n: usize = match self {
            Panel::Default => 1,
            Panel::Duo => 2,
            Panel::Panel => 5,
        };
        all.truncate(n);
        all
    }

    /// Parses a built-in panel by its canonical (already lower-cased) name.
    pub fn from_lowercase_name(lowered: &str) -> (r: Option<Self>)
        ensures
            r == panel_of_name(lowered@),
    {
        if str_eq(lowered, "default") {
            Some(Panel::Default)
        } else if str_eq(lowered, "duo") {
            Some(Panel::Duo)
        } else if str_eq(lowered, "panel") {
            Some(Panel::Panel)
        } else {
            None
        }
    }

    /// Parses a built-in panel by name, ignoring case.
    pub fn from_name(name: &str) -> (r: Option<Self>)
        ensures
            r == panel_of_name(crate::text::lowercase(name@)),
    {
        let lowered = to_lowercase(name);
        Panel::from_lowercase_name(lowered.as_str())
    }

    /// The canonical name of this preset.
    pub fn name(&self) -> (r: &'static str)
        ensures
            r@ == panel_name(*self),
    {
        match self {
            Panel::Default => "default",
            Panel::Duo => "duo",
            Panel::Panel => "panel",
        }
    }
}

/// The personas a panel name stands for: a panel of the config of that
/// name, else the built-in preset of that name (ignoring case); else the
/// names that were available: the built-ins, then the config's panels.
pub open spec fn resolved_panel(name: Seq<char>, c: CredentialsView) -> Result<Seq<PersonaView>, Seq<Seq<char>>> {
    match lookup(c.panels, name) {
        Some(ps) => Ok(ps),
        None => match panel_of_name(crate::text::lowercase(name)) {
            Some(p) => Ok(Seq::new(panel_size(p) as nat, |i: int| archetype(i))),
            None => Err(seq!["default"@, "duo"@, "panel"@] + keys(c.panels)),
        },
    }
}

/// Resolves a panel name to its personas. A panel defined in the config
/// overrides a built-in of the same name.
///
/// Fails with [`PraxisError::UnknownPanel`], listing the available names,
/// when the name is neither.
pub fn resolve_panel(name: &str, credentials: &Credentials) -> (r: Result<Vec<Persona>, PraxisError>)
    ensures
        match (r, resolved_panel(name@, credentials@)) {
            (Ok(ps), Ok(v)) => persona_views(ps@) == v,
            (Err(e), Err(av)) => e matches PraxisError::UnknownPanel { name: n, available }
                && n@ == name@ && views(available@) == av,
            _ => false,
        },
{
    let panels = credentials.panels();
    proof {
        assert(keys(credentials@.panels) =~= names_of(panels@));
    }
    match find_entry(panels, name) {
        Some(i) => {
            let specs = &panels[i].1.personas;
            let ghost want = panel_view(panels@[i as int].1);
            let mut out: Vec<Persona> = Vec::new();
            let mut k: usize = 0;
            while k < specs.len()
                invariant
                    k <= specs@.len(),
                    want == specs@.map_values(|s: PersonaSpec| spec_view(s)),
                    persona_views(out@) == want.take(k as int),
                decreases specs@.len() - k,
            {
                let ghost before = out@;
                let p = specs[k].to_persona();
                out.push(p);
                assert(persona_views(out@) =~= persona_views(before).push(p@));
                k = k + 1;
                assert(persona_views(out@) =~= want.take(k as int));
            }
            assert(want.take(k as int) =~= want);
            return Ok(out);
        },
        None => {},
    }
    match Panel::from_name(name) {
        Some(p) => {
            let ps = p.personas();
            assert(persona_views(ps@) =~= Seq::new(panel_size(p) as nat, |i: int| archetype(i)));
            Ok(ps)
        },
        None => {
            let mut available: Vec<String> = Vec::new();
            available.push(string_of("default"));
            available.push(string_of("duo"));
            available.push(string_of("panel"));
            let mut k: usize = 0;
            assert(views(available@) =~= seq!["default"@, "duo"@, "panel"@] + keys(credentials@.panels).take(0));
            while k < panels.len()
                invariant
                    k <= panels@.len(),
                    keys(credentials@.panels) == names_of(panels@),
                    views(available@) == seq!["default"@, "duo"@, "panel"@] + keys(credentials@.panels).take(k as int),
                decreases panels@.len() - k,
            {
                let ghost before = available@;
                let n = panels[k].0.clone();
                available.push(n);
                assert(views(available@) =~= views(before).push(n@));
                k = k + 1;
                assert(views(available@) =~= seq!["default"@, "duo"@, "panel"@] + keys(credentials@.panels).take(k as int));
            }
            assert(keys(credentials@.panels).take(k as int) =~= keys(credentials@.panels));
            Err(PraxisError::unknown_panel(name, available))
        },
    }
}

/// The views of a sequence of personas.
pub open spec fn persona_views(ps: Seq<Persona>) -> Seq<PersonaView> {
    ps.map_values(|p: Persona| p@)
}

} // verus!
