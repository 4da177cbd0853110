//! Semantic editing actions and cursor movements.
//!
//! An [`Action`] is what a single input event resolves to; a [`Movement`]
//! describes a cursor motion and carries a repeat count.

use vstd::prelude::*;

verus! {

/// Specifies how many times an action or movement is repeated.
pub type RepeatCount = usize;

/// A cursor movement over the line being edited.
///
/// Character movement is measured in Unicode extended grapheme clusters;
/// word movement is measured in Unicode scalar values.  This asymmetry is
/// intentional and preserved throughout the crate.
#[derive(Debug, Clone, Copy, PartialEq, Eq, Structural)]
pub enum Movement {
    BackwardChar(RepeatCount),
    ForwardChar(RepeatCount),
    BackwardWord(RepeatCount),
    ForwardWord(RepeatCount),
    StartOfLine,
    EndOfLine,
}

/// A semantic action produced by resolving one input event.
#[derive(Debug, Clone, PartialEq, Eq)]
pub enum Action {
    /// Cancel the editing session; no line is accepted.
    Cancel,
    /// Finish the session and accept the current line.
    AcceptLine,
    /// Terminate the session with an end-of-file condition.
    EndOfFile,
    /// Delete the text between the cursor and the movement target.
    Kill(Movement),
    /// Move the cursor.
    Move(Movement),
    /// Insert a character at the cursor, the given number of times.
    InsertChar(RepeatCount, char),
    /// Insert a string at the cursor, the given number of times.
    InsertText(RepeatCount, String),
    /// Clear the screen and repaint the prompt and line.
    Repaint,
    /// Recall the previous (older) history entry.
    HistoryPrevious,
    /// Recall the next (newer) history entry.
    HistoryNext,
    /// Start or cycle tab completion.
    Complete,
}

/// Mathematical model of an [`Action`]: pasted text is a character
/// sequence.
pub enum ActionModel {
    Cancel,
    AcceptLine,
    EndOfFile,
    Kill(Movement),
    Move(Movement),
    InsertChar(usize, char),
    InsertText(usize, Seq<char>),
    Repaint,
    HistoryPrevious,
    HistoryNext,
    Complete,
}

impl View for Action {
    type V = ActionModel;

    open spec fn view(&self) -> ActionModel {
        match self {
            Action::Cancel => ActionModel::Cancel,
            Action::AcceptLine => ActionModel::AcceptLine,
            Action::EndOfFile => ActionModel::EndOfFile,
            Action::Kill(m) => ActionModel::Kill(*m),
            Action::Move(m) => ActionModel::Move(*m),
            Action::InsertChar(n, c) => ActionModel::InsertChar(*n, *c),
            Action::InsertText(n, s) => ActionModel::InsertText(*n, s@),
            Action::Repaint => ActionModel::Repaint,
            Action::HistoryPrevious => ActionModel::HistoryPrevious,
            Action::HistoryNext => ActionModel::HistoryNext,
            Action::Complete => ActionModel::Complete,
        }
    }
}

} // verus!
