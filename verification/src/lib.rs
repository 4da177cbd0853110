//! An interactive, single-line text editor in the style of a shell's
//! read-line facility.
//!
//! The editor turns a stream of key and paste events into edits of an
//! in-memory line of UTF-8 text, offers history recall and tab-style
//! completion cycling, and re-renders the prompt and line after every
//! edit.  The terminal transport and the host callbacks (prompt styling,
//! highlighting, completion candidates, history storage) are supplied by
//! the caller through the [`Terminal`] and [`LineEditorHost`] traits.

mod actions;
mod completion;
mod editor;
mod grapheme;
mod history;
mod host;
mod input;
mod movement;
mod surface;
mod terminal;
mod text;

pub use actions::{Action, ActionModel, Movement, RepeatCount};
pub use completion::{
    applied_cursor, applied_line, candidate_fits, completion_wf, cycled, cycled_n,
    lemma_completion_cycling_pure, ByteRange, CandidateModel, CompletionCandidate, CompletionModel,
    CompletionState,
};
pub use editor::{
    cycle_completion_step, edit_step, editor_wf, history_next_n, history_next_step, history_prev_n,
    history_prev_step, insert_char_step, insert_text_step, is_session_action, kill_stays_aligned,
    kill_step, lemma_history_next_returns, lemma_history_previous_saturates,
    lemma_non_complete_clears_completion, move_step, replay, resolve_event, resolve_key,
    session_end_of, session_start_model, start_completion_step, to_candidate_models, EditorModel,
    LineEditor,
};
pub use grapheme::{
    back_graphemes, fwd_graphemes, is_grapheme_boundary, is_next_grapheme_boundary,
    is_prev_grapheme_boundary, lemma_backward_then_forward, lemma_forward_then_backward, next_gb,
    prev_gb,
};
pub use history::{BasicHistory, History};
pub use host::{LineEditorHost, NopLineEditorHost};
pub use input::{EventModel, InputEvent, KeyCode, KeyEvent, Modifiers};
pub use movement::{char_starts, move_target};
pub use surface::{
    compose_render_changes, display_width_of, prompt_width_of, Change, OutputElement, Position,
    TextAttribute,
};
pub use terminal::{LineEditError, ScriptedTerminal, Terminal};
pub use text::{is_ws_scalar, scalar_at, scalar_len_at};
