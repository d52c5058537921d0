//! Choice of the agent backend that serves a request.
//!
//! A backend is one of three fixed flavours. The names by which the agent and
//! its users call them stand in a `BackendNames` table: `standard` fixes
//! those of `Codex` and `Gemini` and takes the third from the caller, and
//! `new` takes all three. The backend of a request is taken from the explicit
//! configuration where there is one, else derived from the caller's hint,
//! else from the name of the model in use, and is the codex backend where
//! nothing applies.

use vstd::prelude::*;
use crate::text::{
    chars_of, contains, contains_chars, eq_ignore_ascii_case, lowercase_of, strip_end_in,
    strip_start_in, substring, trim, window_eq_ignore_ascii_case, CharClass,
};

verus! {

/// The backend flavours that an invocation can target.
#[derive(Clone, Copy, Debug, PartialEq, Eq, Structural)]
pub enum BackendTag {
    /// The codex flavour, which is the default.
    Codex,
    /// The flavour of the vendor Anthropic.
    Anthropic,
    /// The gemini flavour.
    Gemini,
}

/// The name of each backend. No name is empty.
#[derive(Clone, Debug, PartialEq, Eq)]
pub struct BackendNames {
    codex: String,
    anthropic: String,
    gemini: String,
}

impl BackendNames {
    /// No name is empty.
    pub closed spec fn wf(&self) -> bool {
        &&& self.codex@.len() > 0
        &&& self.anthropic@.len() > 0
        &&& self.gemini@.len() > 0
    }

    /// The name of the backend `tag`.
    pub closed spec fn name(&self, tag: BackendTag) -> Seq<char> {
        match tag {
            BackendTag::Codex => self.codex@,
            BackendTag::Anthropic => self.anthropic@,
            BackendTag::Gemini => self.gemini@,
        }
    }

    /// A table of the three names, unless one of them is empty.
    pub fn new(codex: String, anthropic: String, gemini: String) -> (names: Option<Self>)
        ensures
            names is Some <==> codex@.len() > 0 && anthropic@.len() > 0 && gemini@.len() > 0,
            names matches Some(n) ==> {
                &&& n.wf()
                &&& n.name(BackendTag::Codex) == codex@
                &&& n.name(BackendTag::Anthropic) == anthropic@
                &&& n.name(BackendTag::Gemini) == gemini@
            },
    {
        if codex.as_str().is_empty() || anthropic.as_str().is_empty() || gemini.as_str().is_empty() {
            None
        } else {
            Some(BackendNames { codex, anthropic, gemini })
        }
    }

    /// The table in which `Codex` is called `codex` and `Gemini` is called
    /// `gemini`, as the agent calls them, and `Anthropic` is called
    /// `anthropic`, unless that name is empty.
    pub fn standard(anthropic: String) -> (names: Option<Self>)
        ensures
            names is Some <==> anthropic@.len() > 0,
            names matches Some(n) ==> {
                &&& n.wf()
                &&& n.name(BackendTag::Codex) == "codex"@
                &&& n.name(BackendTag::Anthropic) == anthropic@
                &&& n.name(BackendTag::Gemini) == "gemini"@
            },
    {
        proof {
            reveal_strlit("codex");
            reveal_strlit("gemini");
        }
        if anthropic.as_str().is_empty() {
            None
        } else {
            Some(
                BackendNames { codex: "codex".to_owned(), anthropic, gemini: "gemini".to_owned() },
            )
        }
    }

    /// The name of the backend `tag`.
    pub fn name_of(&self, tag: BackendTag) -> (name: &str)
        ensures
            name@ == self.name(tag),
    {
        match tag {
            BackendTag::Codex => self.codex.as_str(),
            BackendTag::Anthropic => self.anthropic.as_str(),
            BackendTag::Gemini => self.gemini.as_str(),
        }
    }

    /// The backend that a configured name stands for: the one whose name the
    /// trimmed text equals up to the case of ASCII letters. The name of
    /// `Codex` is tried first, then that of `Anthropic`, then that of
    /// `Gemini`.
    pub open spec fn named(&self, text: Seq<char>) -> Option<BackendTag> {
        let t = trim(text);
        if eq_ignore_ascii_case(t, self.name(BackendTag::Codex)) {
            Some(BackendTag::Codex)
        } else if eq_ignore_ascii_case(t, self.name(BackendTag::Anthropic)) {
            Some(BackendTag::Anthropic)
        } else if eq_ignore_ascii_case(t, self.name(BackendTag::Gemini)) {
            Some(BackendTag::Gemini)
        } else {
            None
        }
    }

    /// The backend whose name occurs in a lower-case text. The name of
    /// `Anthropic` is looked for first, then that of `Gemini`, then that of
    /// `Codex`.
    pub open spec fn named_in(&self, lowered: Seq<char>) -> Option<BackendTag> {
        if contains(lowered, self.name(BackendTag::Anthropic)) {
            Some(BackendTag::Anthropic)
        } else if contains(lowered, self.name(BackendTag::Gemini)) {
            Some(BackendTag::Gemini)
        } else if contains(lowered, self.name(BackendTag::Codex)) {
            Some(BackendTag::Codex)
        } else {
            None
        }
    }

    /// The backend that a caller's hint stands for, if it names one: the
    /// hint is trimmed and lower-cased, and an empty hint names none.
    pub open spec fn of_hint(&self, hint: Seq<char>) -> Option<BackendTag> {
        if trim(hint).len() == 0 {
            None
        } else {
            self.named_in(lowercase_of(trim(hint)))
        }
    }

    /// The backend that serves a model: the one named in the lower-cased
    /// model name, and the codex backend for every other model and for none.
    pub open spec fn of_model(&self, model: Seq<char>) -> BackendTag {
        if model.len() == 0 {
            BackendTag::Codex
        } else {
            match self.named_in(lowercase_of(model)) {
                Some(tag) => tag,
                None => BackendTag::Codex,
            }
        }
    }

    /// The backend that serves a request: the configured one; else the one
    /// that the hint names; else the one that serves the current model.
    pub open spec fn selected(
        &self,
        explicit: Option<BackendTag>,
        hint: Option<Seq<char>>,
        model: Option<Seq<char>>,
    ) -> BackendTag {
        if let Some(tag) = explicit {
            tag
        } else if hint is Some && self.of_hint(hint->0) is Some {
            self.of_hint(hint->0)->0
        } else if let Some(m) = model {
            self.of_model(m)
        } else {
            BackendTag::Codex
        }
    }

    /// Reads a configured backend name.
    pub fn from_name(&self, text: &str) -> (tag: Option<BackendTag>)
        ensures
            tag == self.named(text@),
    {
        let v = chars_of(text);
        assert(v@.subrange(0, v.len() as int) == v@);
        let lo = strip_start_in(&v, 0, v.len(), CharClass::Whitespace);
        let hi = strip_end_in(&v, lo, v.len(), CharClass::Whitespace);
        if window_eq_ignore_ascii_case(&v, lo, hi, &chars_of(self.codex.as_str())) {
            Some(BackendTag::Codex)
        } else if window_eq_ignore_ascii_case(&v, lo, hi, &chars_of(self.anthropic.as_str())) {
            Some(BackendTag::Anthropic)
        } else if window_eq_ignore_ascii_case(&v, lo, hi, &chars_of(self.gemini.as_str())) {
            Some(BackendTag::Gemini)
        } else {
            None
        }
    }

    /// Finds the backend whose name occurs in an already lower-cased text.
    pub fn find_backend_name(&self, lowered: &str) -> (tag: Option<BackendTag>)
        ensures
            tag == self.named_in(lowered@),
    {
        let v = chars_of(lowered);
        if contains_chars(&v, &chars_of(self.anthropic.as_str())) {
            Some(BackendTag::Anthropic)
        } else if contains_chars(&v, &chars_of(self.gemini.as_str())) {
            Some(BackendTag::Gemini)
        } else if contains_chars(&v, &chars_of(self.codex.as_str())) {
            Some(BackendTag::Codex)
        } else {
            None
        }
    }

    /// Derives the backend from the name of the command-line tool that the
    /// caller picked.
    pub fn derive_backend_from_code_cli(&self, code_cli: &str) -> (tag: Option<BackendTag>)
        ensures
            tag == self.of_hint(code_cli@),
    {
        let v = chars_of(code_cli);
        assert(v@.subrange(0, v.len() as int) == v@);
        let lo = strip_start_in(&v, 0, v.len(), CharClass::Whitespace);
        let hi = strip_end_in(&v, lo, v.len(), CharClass::Whitespace);
        if lo == hi {
            return None;
        }
        let trimmed = substring(&v, lo, hi);
        let lowered = trimmed.as_str().to_lowercase();
        self.find_backend_name(lowered.as_str())
    }

    /// Derives the backend from the name of the model in use.
    pub fn derive_backend_from_current_model(&self, model: &str) -> (tag: BackendTag)
        ensures
            tag == self.of_model(model@),
    {
        if model.is_empty() {
            return BackendTag::Codex;
        }
        let lowered = model.to_lowercase();
        match self.find_backend_name(lowered.as_str()) {
            Some(tag) => tag,
            None => BackendTag::Codex,
        }
    }

    /// Selects the backend of a request. Every combination of arguments
    /// yields a backend: what names none falls through to the next source,
    /// and to the codex backend at the end.
    pub fn select_backend(
        &self,
        explicit: Option<BackendTag>,
        hint: Option<&str>,
        model: Option<&str>,
    ) -> (tag: BackendTag)
        ensures
            tag == self.selected(
                explicit,
                match hint {
                    Some(h) => Some(h@),
                    None => None,
                },
                match model {
                    Some(m) => Some(m@),
                    None => None,
                },
            ),
    {
        if let Some(tag) = explicit {
            return tag;
        }
        if let Some(h) = hint {
            if let Some(tag) = self.derive_backend_from_code_cli(h) {
                return tag;
            }
        }
        match model {
            Some(m) => self.derive_backend_from_current_model(m),
            None => BackendTag::Codex,
        }
    }
}

/// Without a configured backend, and with a hint and a model that are absent
/// or empty, the selection is the codex backend; and a configured backend is
/// selected whatever the hint and the model are.
pub proof fn lemma_selection_default(
    names: BackendNames,
    hint: Option<Seq<char>>,
    model: Option<Seq<char>>,
)
    requires
        hint is Some ==> hint->0.len() == 0,
        model is Some ==> model->0.len() == 0,
    ensures
        names.selected(None, hint, model) == BackendTag::Codex,
        forall|tag: BackendTag, h: Option<Seq<char>>, m: Option<Seq<char>>|
            #[trigger] names.selected(Some(tag), h, m) == tag,
{
    if hint is Some {
        assert(trim(hint->0) =~= Seq::<char>::empty());
    }
}

/// A hint and a model neither of which names a backend select the codex
/// backend.
pub proof fn lemma_selection_falls_through(names: BackendNames, hint: Seq<char>, model: Seq<char>)
    requires
        names.named_in(lowercase_of(trim(hint))) is None,
        names.named_in(lowercase_of(model)) is None,
    ensures
        names.selected(None, Some(hint), Some(model)) == BackendTag::Codex,
        names.selected(None, None, Some(model)) == BackendTag::Codex,
        names.selected(None, Some(hint), None) == BackendTag::Codex,
{
}

} // verus!
