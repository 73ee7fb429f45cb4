//! The document under critique.

use crate::text::string_of;
use vstd::prelude::*;

verus! {

/// The abstract content of a subject.
pub struct SubjectView {
    pub text: Seq<char>,
    pub source: Option<Seq<char>>,
}

/// Whatever a run is cross-examining: markdown text plus an optional source
/// path.
#[derive(Debug)]
pub struct Subject {
    text: String,
    source: Option<String>,
}

impl View for Subject {
    type V = SubjectView;

    closed spec fn view(&self) -> SubjectView {
        SubjectView { text: self.text@, source: crate::persona::opt_view(self.source) }
    }
}

impl Subject {
    /// Builds a subject from markdown text and a source path. An empty source
    /// path means "unknown" and is stored as `None`.
    pub fn from_markdown(text: &str, source: &str) -> (r: Self)
        ensures
            r@.text == text@,
            r@.source == (if source@.len() == 0 {
                None::<Seq<char>>
            } else {
                Some(source@)
            }),
    {
        let src = if source.is_empty() {
            None
        } else {
            Some(string_of(source))
        };
        Subject { text: string_of(text), source: src }
    }

    /// The full markdown text of the document.
    pub fn text(&self) -> (r: &str)
        ensures
            r@ == self@.text,
    {
        self.text.as_str()
    }

    /// The originating path or URL of the document, if known.
    pub fn source(&self) -> (r: Option<&str>)
        ensures
            match r {
                Some(s) => self@.source == Some(s@),
                None => self@.source is None,
            },
    {
        match &self.source {
            Some(s) => Some(s.as_str()),
            None => None,
        }
    }
}

impl Clone for Subject {
    fn clone(&self) -> (r: Self)
        ensures
            r@ == self@,
    {
        Subject { text: self.text.clone(), source: crate::persona::clone_opt(&self.source) }
    }
}

} // verus!
