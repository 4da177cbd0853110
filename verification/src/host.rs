//! The host capability set: prompt styling, line highlighting, completion
//! candidates, and history storage, all supplied by the caller.

use crate::completion::CompletionCandidate;
use crate::history::{BasicHistory, History};
use crate::surface::{unicode_column_width, OutputElement};
use vstd::prelude::*;

verus! {

/// The callbacks a host supplies to a line-editing session.
pub trait LineEditorHost {
    /// The history storage this host provides.
    type Hist: History;

    /// The lines the host's history log holds.  A host verified in this
    /// crate defines it to match its log; an implementation left outside
    /// verification inherits the default, an empty log.
    open spec fn history_entries(&self) -> Seq<Seq<char>> {
        Seq::empty()
    }

    /// The host's history log.
    fn history(&self) -> (r: &Self::Hist)
        ensures
            r.entries() == self.history_entries(),
    ;

    /// Styles the prompt text as a list of output fragments.
    fn render_prompt(&self, prompt: &str) -> Vec<OutputElement>;

    /// Styles the line being edited, and declares the display column at
    /// which the visible cursor belongs.
    fn highlight_line(&self, line: &str, cursor: usize) -> (Vec<OutputElement>, usize);

    /// Produces the completion candidates for the given line and byte
    /// cursor, in the order they should cycle.
    fn complete(&self, line: &str, cursor: usize) -> Vec<CompletionCandidate>;
}

/// A host with no styling, no completions, and an in-memory history; fit
/// for headless use.
pub struct NopLineEditorHost {
    history: BasicHistory,
}

impl NopLineEditorHost {
    /// A host with an empty history.
    pub fn new() -> (r: Self)
        ensures
            r.history_entries().len() == 0,
    {
        NopLineEditorHost { history: BasicHistory::new() }
    }

    /// The host's history, for appending accepted lines between sessions.
    pub fn history_mut(&mut self) -> &mut BasicHistory {
        &mut self.history
    }
}

impl Default for NopLineEditorHost {
    fn default() -> (r: Self)
        ensures
            r.history_entries().len() == 0,
    {
        NopLineEditorHost::new()
    }
}

impl LineEditorHost for NopLineEditorHost {
    type Hist = BasicHistory;

    closed spec fn history_entries(&self) -> Seq<Seq<char>> {
        self.history.entries()
    }

    fn history(&self) -> (r: &BasicHistory) {
        &self.history
    }

    fn render_prompt(&self, prompt: &str) -> Vec<OutputElement> {
        let mut v: Vec<OutputElement> = Vec::new();
        v.push(OutputElement::Text(prompt.to_owned()));
        v
    }

    fn highlight_line(&self, line: &str, cursor: usize) -> (Vec<OutputElement>, usize) {
        let mut v: Vec<OutputElement> = Vec::new();
        v.push(OutputElement::Text(line.to_owned()));
        let col = if line.is_char_boundary(cursor) {
            let (before, _) = line.split_at(cursor);
            unicode_column_width(before)
        } else {
            cursor
        };
        (v, col)
    }

    fn complete(&self, _line: &str, _cursor: usize) -> Vec<CompletionCandidate> {
        Vec::new()
    }
}

} // verus!
