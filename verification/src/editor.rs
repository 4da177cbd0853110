//! The line editor: one session's state machine, its action dispatch, and
//! the render loop.
//!
//! The editor owns the line being edited (as UTF-8 bytes with a byte
//! cursor), the history browsing position with its stashed bottom line,
//! and the completion state.  Every editing action is specified as a pure
//! step function over [`EditorModel`], and the executable methods are
//! proved to realize those steps.  A whole session is specified over the
//! transport's event script: its outcome classifies by the first
//! session-ending action the script resolves ([`session_end_of`]), and for
//! scripts free of completion requests the accepted line is pinned by
//! [`replay`] as a pure function of the events and the history.

use crate::actions::{Action, ActionModel, Movement};
use crate::completion::{
    applied_cursor, applied_line, candidate_fits, completion_wf, cycled, CandidateModel,
    CompletionCandidate, CompletionModel, CompletionState,
};
use crate::grapheme::{lemma_next_gb_is, next_gb, next_grapheme_boundary};
use crate::history::History;
use crate::host::LineEditorHost;
use crate::input::{mods_alt, mods_ctrl, mods_none, mods_shift, EventModel, InputEvent, KeyCode};
use crate::movement::move_target;
use crate::surface::{compose_render_changes, Change};
use crate::terminal::{LineEditError, Terminal};
use crate::text::{bytes_to_string, encode_char_bytes, lemma_splice_valid, splice_bytes, str_bytes};
use vstd::prelude::*;
use vstd::utf8::*;

verus! {

broadcast use vstd::seq::group_seq_axioms, vstd::utf8::encode_utf8_valid_utf8;

/// Mathematical model of one editing session's state.
pub struct EditorModel {
    /// The line being edited, as UTF-8 bytes.
    pub line: Seq<u8>,
    /// The byte cursor, always on a character boundary of `line`.
    pub cursor: int,
    /// The history index being browsed, if any.
    pub history_pos: Option<int>,
    /// The line as it stood before browsing began, if browsing.
    pub bottom_line: Option<Seq<u8>>,
    /// The active completion, if any.
    pub completion: Option<CompletionModel>,
}

/// Well-formedness of the session state: the line is valid UTF-8, the
/// cursor sits on a character boundary, and any active completion is
/// itself well-formed.
pub open spec fn editor_wf(m: EditorModel) -> bool {
    &&& valid_utf8(m.line)
    &&& 0 <= m.cursor <= m.line.len()
    &&& is_char_boundary(m.line, m.cursor)
    &&& match m.completion {
        Some(c) => completion_wf(c),
        None => true,
    }
    &&& match m.bottom_line {
        Some(b) => valid_utf8(b),
        None => true,
    }
}

/// The state after `Kill(movement)`: completion goes idle, the half-open
/// byte range between the cursor and the movement target is deleted, and
/// the cursor lands at the movement target clamped to the new (shorter)
/// line length, so a kill to the end of the line never leaves the cursor
/// past the new end.
pub open spec fn kill_step(m: EditorModel, movement: Movement) -> EditorModel {
    let t = move_target(m.line, m.cursor, movement);
    let lo = if t < m.cursor {
        t
    } else {
        m.cursor
    };
    let hi = if t < m.cursor {
        m.cursor
    } else {
        t
    };
    let line2 = m.line.subrange(0, lo) + m.line.subrange(hi, m.line.len() as int);
    EditorModel {
        line: line2,
        cursor: if t <= line2.len() {
            t
        } else {
            line2.len() as int
        },
        completion: None,
        ..m
    }
}

/// True when a kill's movement target does not lie strictly ahead of the
/// cursor inside the line — the case for every kill the key table issues.
/// Such a kill leaves the clamped cursor at the start of the removed range
/// or at the new end of the line, both character boundaries.
pub open spec fn kill_stays_aligned(m: EditorModel, movement: Movement) -> bool {
    ||| move_target(m.line, m.cursor, movement) <= m.cursor
    ||| move_target(m.line, m.cursor, movement) == m.line.len()
}

/// The state after `Move(movement)`: completion goes idle and the cursor
/// moves to the movement target.
pub open spec fn move_step(m: EditorModel, movement: Movement) -> EditorModel {
    EditorModel { cursor: move_target(m.line, m.cursor, movement), completion: None, ..m }
}

/// One character insertion: the character's encoding is spliced in at the
/// cursor, and the cursor advances to the next grapheme boundary of the
/// new line (so a combining mark joins the cluster before it).
pub open spec fn insert_char_once(line: Seq<u8>, cursor: int, c: char) -> (Seq<u8>, int) {
    let nl = line.subrange(0, cursor) + encode_scalar(c as u32) + line.subrange(
        cursor,
        line.len() as int,
    );
    (nl, next_gb(nl, cursor))
}

/// `n` repeated character insertions.
pub open spec fn insert_char_rep(line: Seq<u8>, cursor: int, c: char, n: nat) -> (Seq<u8>, int)
    decreases n,
{
    if n == 0 {
        (line, cursor)
    } else {
        let prev = insert_char_rep(line, cursor, c, (n - 1) as nat);
        insert_char_once(prev.0, prev.1, c)
    }
}

/// The state after `InsertChar(n, c)`.
pub open spec fn insert_char_step(m: EditorModel, n: nat, c: char) -> EditorModel {
    let r = insert_char_rep(m.line, m.cursor, c, n);
    EditorModel { line: r.0, cursor: r.1, completion: None, ..m }
}

/// One text insertion: the bytes are spliced in at the cursor and the
/// cursor advances by their length (pasted text is trusted to already be
/// normalized; no grapheme re-segmentation).
pub open spec fn insert_text_once(line: Seq<u8>, cursor: int, t: Seq<u8>) -> (Seq<u8>, int) {
    (line.subrange(0, cursor) + t + line.subrange(cursor, line.len() as int), cursor + t.len())
}

/// `n` repeated text insertions.
pub open spec fn insert_text_rep(line: Seq<u8>, cursor: int, t: Seq<u8>, n: nat) -> (Seq<u8>, int)
    decreases n,
{
    if n == 0 {
        (line, cursor)
    } else {
        let prev = insert_text_rep(line, cursor, t, (n - 1) as nat);
        insert_text_once(prev.0, prev.1, t)
    }
}

/// The state after `InsertText(n, t)`.
pub open spec fn insert_text_step(m: EditorModel, n: nat, t: Seq<u8>) -> EditorModel {
    let r = insert_text_rep(m.line, m.cursor, t, n);
    EditorModel { line: r.0, cursor: r.1, completion: None, ..m }
}

/// The state after `HistoryPrevious`.  Browsing moves one entry older,
/// saturating at index zero; not yet browsing, it stashes the current
/// line as the bottom line and recalls the most recent entry.  A recalled
/// line always has the cursor at its end.  An empty history leaves the
/// line and cursor untouched.
pub open spec fn history_prev_step(m: EditorModel, entries: Seq<Seq<char>>) -> EditorModel {
    match m.history_pos {
        Some(cur) => {
            let prior = if cur > 0 {
                cur - 1
            } else {
                0
            };
            if prior < entries.len() {
                let bytes = encode_utf8(entries[prior]);
                EditorModel {
                    line: bytes,
                    cursor: bytes.len() as int,
                    history_pos: Some(prior),
                    completion: None,
                    ..m
                }
            } else {
                EditorModel { completion: None, ..m }
            }
        },
        None => {
            if entries.len() > 0 {
                let last = entries.len() - 1;
                let bytes = encode_utf8(entries[last]);
                EditorModel {
                    line: bytes,
                    cursor: bytes.len() as int,
                    history_pos: Some(last),
                    bottom_line: Some(m.line),
                    completion: None,
                }
            } else {
                EditorModel { completion: None, ..m }
            }
        },
    }
}

/// The state after `HistoryNext`.  Only meaningful while browsing: with a
/// newer entry it moves to it; at the newest entry it restores the
/// stashed bottom line (or clears the line when none was stashed) and
/// leaves browsing.
pub open spec fn history_next_step(m: EditorModel, entries: Seq<Seq<char>>) -> EditorModel {
    match m.history_pos {
        Some(cur) => {
            if cur + 1 <= usize::MAX && cur + 1 < entries.len() {
                let bytes = encode_utf8(entries[cur + 1]);
                EditorModel {
                    line: bytes,
                    cursor: bytes.len() as int,
                    history_pos: Some(cur + 1),
                    completion: None,
                    ..m
                }
            } else {
                match m.bottom_line {
                    Some(b) => EditorModel {
                        line: b,
                        cursor: b.len() as int,
                        history_pos: None,
                        bottom_line: None,
                        completion: None,
                    },
                    None => EditorModel {
                        line: Seq::empty(),
                        cursor: 0,
                        history_pos: None,
                        bottom_line: None,
                        completion: None,
                    },
                }
            }
        },
        None => EditorModel { completion: None, ..m },
    }
}

/// The candidate models of a host-supplied candidate list.
pub open spec fn to_candidate_models(cands: Seq<CompletionCandidate>) -> Seq<CandidateModel> {
    cands.map_values(|c: CompletionCandidate| c@)
}

/// The state after `Complete` while idle: with no candidates, or any
/// candidate that does not fit the snapshot, nothing changes; otherwise
/// completion activates at index zero over the snapshotted line and
/// cursor, and the first candidate is applied.
pub open spec fn start_completion_step(m: EditorModel, cands: Seq<CandidateModel>) -> EditorModel {
    if cands.len() == 0 || exists|i: int|
        0 <= i < cands.len() && !candidate_fits(#[trigger] cands[i], m.line, m.cursor) {
        m
    } else {
        let cm = CompletionModel {
            candidates: cands,
            index: 0,
            original_line: m.line,
            original_cursor: m.cursor,
        };
        EditorModel {
            line: applied_line(m.line, cands[0]),
            cursor: applied_cursor(m.cursor, cands[0]),
            completion: Some(cm),
            ..m
        }
    }
}

/// The state after `Complete` while active: the index advances circularly
/// and the candidate now at the index is applied to the immutable
/// snapshot.
pub open spec fn cycle_completion_step(m: EditorModel) -> EditorModel {
    match m.completion {
        Some(cm) => {
            let c2 = cycled(cm);
            EditorModel {
                line: applied_line(c2.original_line, c2.candidates[c2.index]),
                cursor: applied_cursor(c2.original_cursor, c2.candidates[c2.index]),
                completion: Some(c2),
                ..m
            }
        },
        None => m,
    }
}

/// True of the actions that end the session rather than edit the state.
pub open spec fn is_session_action(a: ActionModel) -> bool {
    a is Cancel || a is AcceptLine || a is EndOfFile
}

/// The pure state transition of one editing action.  `Complete` is not
/// covered here: while idle it consults the host for candidates (see
/// [`start_completion_step`]); the session-ending actions leave the state
/// as it is.
pub open spec fn edit_step(m: EditorModel, a: ActionModel, entries: Seq<Seq<char>>) -> EditorModel {
    match a {
        ActionModel::Kill(mv) => kill_step(m, mv),
        ActionModel::Move(mv) => move_step(m, mv),
        ActionModel::InsertChar(n, c) => insert_char_step(m, n as nat, c),
        ActionModel::InsertText(n, t) => insert_text_step(m, n as nat, encode_utf8(t)),
        ActionModel::Repaint => EditorModel { completion: None, ..m },
        ActionModel::HistoryPrevious => history_prev_step(m, entries),
        ActionModel::HistoryNext => history_next_step(m, entries),
        _ => m,
    }
}

/// The state every session starts from: an empty line with the cursor at
/// its start, no history browsing, no stashed bottom line, completion
/// idle.
pub open spec fn session_start_model() -> EditorModel {
    EditorModel {
        line: Seq::<u8>::empty(),
        cursor: 0,
        history_pos: None,
        bottom_line: None,
        completion: None,
    }
}

/// The first session-ending action (cancel, accept, or end-of-file) the
/// script of input events resolves to, scanning in delivery order.
pub open spec fn session_end_of(script: Seq<InputEvent>) -> Option<ActionModel>
    decreases script.len(),
{
    if script.len() == 0 {
        None
    } else {
        match resolve_event(script[0]@) {
            Some(a) => if is_session_action(a) {
                Some(a)
            } else {
                session_end_of(script.drop_first())
            },
            None => session_end_of(script.drop_first()),
        }
    }
}

/// Replays a script of input events over the session state, folding the
/// step of each resolved editing action, and stops at the first
/// session-ending action: the state whose line a session over this script
/// yields, when the script runs out or a line is accepted.  It is nothing
/// when the session is cancelled or ends in end-of-file, and also when
/// completion is requested, whose candidates only the host knows.
pub open spec fn replay(m: EditorModel, script: Seq<InputEvent>, entries: Seq<Seq<char>>) -> Option<
    EditorModel,
>
    decreases script.len(),
{
    if script.len() == 0 {
        Some(m)
    } else {
        match resolve_event(script[0]@) {
            Some(a) => {
                if a is AcceptLine {
                    Some(m)
                } else if is_session_action(a) || a is Complete {
                    None
                } else {
                    replay(edit_step(m, a, entries), script.drop_first(), entries)
                }
            },
            None => replay(m, script.drop_first(), entries),
        }
    }
}

/// Any action other than `Complete` issued while completion is active
/// deterministically returns completion to idle, and has exactly the
/// effect it would have had with completion already idle.
pub proof fn lemma_non_complete_clears_completion(
    m: EditorModel,
    a: ActionModel,
    entries: Seq<Seq<char>>,
)
    requires
        m.completion is Some,
        !(a is Complete),
        !is_session_action(a),
    ensures
        edit_step(m, a, entries).completion is None,
        edit_step(m, a, entries) == edit_step(EditorModel { completion: None, ..m }, a, entries),
{
}

/// `n` repeated `HistoryPrevious` steps.
pub open spec fn history_prev_n(m: EditorModel, entries: Seq<Seq<char>>, n: nat) -> EditorModel
    decreases n,
{
    if n == 0 {
        m
    } else {
        history_prev_n(history_prev_step(m, entries), entries, (n - 1) as nat)
    }
}

/// `n` repeated `HistoryNext` steps.
pub open spec fn history_next_n(m: EditorModel, entries: Seq<Seq<char>>, n: nat) -> EditorModel
    decreases n,
{
    if n == 0 {
        m
    } else {
        history_next_n(history_next_step(m, entries), entries, (n - 1) as nat)
    }
}

/// `HistoryPrevious` saturates at the oldest entry: browsing at index
/// zero with the oldest line recalled, any number of further
/// `HistoryPrevious` steps leaves the state exactly as it is.
pub proof fn lemma_history_previous_saturates(m: EditorModel, entries: Seq<Seq<char>>, n: nat)
    requires
        m.history_pos == Some(0int),
        entries.len() > 0,
        m.line == encode_utf8(entries[0]),
        m.cursor == m.line.len() as int,
        m.completion is None,
    ensures
        history_prev_n(m, entries, n) == m,
    decreases n,
{
    if n > 0 {
        assert(history_prev_step(m, entries) == m);
        lemma_history_previous_saturates(m, entries, (n - 1) as nat);
    }
}

/// From any browsing position with a stashed bottom line, enough
/// `HistoryNext` steps always terminate back at exactly the pre-browse
/// line, with browsing over and the stash cleared.
pub proof fn lemma_history_next_returns(
    m: EditorModel,
    entries: Seq<Seq<char>>,
    p: int,
    b: Seq<u8>,
)
    requires
        m.history_pos == Some(p),
        0 <= p < entries.len(),
        entries.len() <= usize::MAX,
        m.bottom_line == Some(b),
    ensures
        ({
            let fin = history_next_n(m, entries, (entries.len() - p) as nat);
            &&& fin.line == b
            &&& fin.cursor == b.len() as int
            &&& fin.history_pos is None
            &&& fin.bottom_line is None
        }),
    decreases entries.len() - p,
{
    let stepped = history_next_step(m, entries);
    if p + 1 < entries.len() {
        assert(stepped.history_pos == Some(p + 1));
        assert(stepped.bottom_line == Some(b));
        lemma_history_next_returns(stepped, entries, p + 1, b);
    } else {
        assert(stepped.line == b);
        assert(stepped.history_pos is None);
        assert(history_next_n(stepped, entries, 0) == stepped);
    }
}

/// The table mapping a key event to its action.  The table is
/// order-independent: each entry is matched by key and exact modifier
/// set, and no two entries overlap.
pub open spec fn resolve_key(key: KeyCode, m: crate::input::Modifiers) -> Option<ActionModel> {
    match key {
        KeyCode::Char(c) => {
            if mods_ctrl(m) {
                if c == 'C' {
                    Some(ActionModel::Cancel)
                } else if c == 'D' {
                    Some(ActionModel::EndOfFile)
                } else if c == 'J' || c == 'M' {
                    Some(ActionModel::AcceptLine)
                } else if c == 'H' {
                    Some(ActionModel::Kill(Movement::BackwardChar(1)))
                } else if c == 'P' {
                    Some(ActionModel::HistoryPrevious)
                } else if c == 'N' {
                    Some(ActionModel::HistoryNext)
                } else if c == 'B' {
                    Some(ActionModel::Move(Movement::BackwardChar(1)))
                } else if c == 'W' {
                    Some(ActionModel::Kill(Movement::BackwardWord(1)))
                } else if c == 'A' {
                    Some(ActionModel::Move(Movement::StartOfLine))
                } else if c == 'E' {
                    Some(ActionModel::Move(Movement::EndOfLine))
                } else if c == 'F' {
                    Some(ActionModel::Move(Movement::ForwardChar(1)))
                } else if c == 'L' {
                    Some(ActionModel::Repaint)
                } else if c == 'K' {
                    Some(ActionModel::Kill(Movement::EndOfLine))
                } else {
                    None
                }
            } else if mods_alt(m) {
                if c == 'b' {
                    Some(ActionModel::Move(Movement::BackwardWord(1)))
                } else if c == 'f' {
                    Some(ActionModel::Move(Movement::ForwardWord(1)))
                } else {
                    None
                }
            } else if mods_none(m) || mods_shift(m) {
                Some(ActionModel::InsertChar(1, c))
            } else {
                None
            }
        },
        KeyCode::Tab => if mods_none(m) {
            Some(ActionModel::Complete)
        } else {
            None
        },
        KeyCode::Enter => if mods_none(m) {
            Some(ActionModel::AcceptLine)
        } else {
            None
        },
        KeyCode::Backspace => if mods_none(m) {
            Some(ActionModel::Kill(Movement::BackwardChar(1)))
        } else {
            None
        },
        KeyCode::UpArrow => if mods_none(m) {
            Some(ActionModel::HistoryPrevious)
        } else {
            None
        },
        KeyCode::DownArrow => if mods_none(m) {
            Some(ActionModel::HistoryNext)
        } else {
            None
        },
        KeyCode::LeftArrow => if mods_none(m) {
            Some(ActionModel::Move(Movement::BackwardChar(1)))
        } else if mods_alt(m) {
            Some(ActionModel::Move(Movement::BackwardWord(1)))
        } else {
            None
        },
        KeyCode::RightArrow => if mods_none(m) {
            Some(ActionModel::Move(Movement::ForwardChar(1)))
        } else if mods_alt(m) {
            Some(ActionModel::Move(Movement::ForwardWord(1)))
        } else {
            None
        },
        KeyCode::Home => if mods_none(m) {
            Some(ActionModel::Move(Movement::StartOfLine))
        } else {
            None
        },
        KeyCode::End => if mods_none(m) {
            Some(ActionModel::Move(Movement::EndOfLine))
        } else {
            None
        },
        _ => None,
    }
}

/// What one input event resolves to: a key goes through the key table; a
/// paste becomes a single text insertion; anything else is dropped.
pub open spec fn resolve_event(e: EventModel) -> Option<ActionModel> {
    match e {
        EventModel::Key(ke) => resolve_key(ke.key, ke.modifiers),
        EventModel::Paste(t) => Some(ActionModel::InsertText(1, t)),
    }
}

/// The line editor: line-editing facilities in the style of a unix
/// shell's read-line, over a [`Terminal`] transport and a
/// [`LineEditorHost`] capability set.
pub struct LineEditor<T: Terminal> {
    terminal: T,
    prompt: String,
    line: Vec<u8>,
    cursor: usize,
    history_pos: Option<usize>,
    bottom_line: Option<Vec<u8>>,
    completion: Option<CompletionState>,
}

impl<T: Terminal> LineEditor<T> {
    /// The session state this editor holds, as a mathematical value.
    pub closed spec fn model(&self) -> EditorModel {
        EditorModel {
            line: self.line@,
            cursor: self.cursor as int,
            history_pos: match self.history_pos {
                Some(p) => Some(p as int),
                None => None,
            },
            bottom_line: match self.bottom_line {
                Some(b) => Some(b@),
                None => None,
            },
            completion: match self.completion {
                Some(c) => Some(c@),
                None => None,
            },
        }
    }

    /// The prompt text shown before the line.
    pub closed spec fn prompt_view(&self) -> Seq<char> {
        self.prompt@
    }

    /// The terminal transport this editor drives.
    pub closed spec fn spec_terminal(&self) -> T {
        self.terminal
    }

    /// Well-formedness of the editor's state.
    pub open spec fn wf(&self) -> bool {
        editor_wf(self.model())
    }

    /// Creates a new line editor over the given terminal, with an empty
    /// line and the default prompt.
    pub fn new(terminal: T) -> (r: Self)
        ensures
            r.wf(),
            r.model() == (EditorModel {
                line: Seq::<u8>::empty(),
                cursor: 0,
                history_pos: None,
                bottom_line: None,
                completion: None,
            }),
            r.prompt_view() == "> "@,
            r.spec_terminal() == terminal,
    {
        let r = LineEditor {
            terminal,
            prompt: "> ".to_owned(),
            line: Vec::new(),
            cursor: 0,
            history_pos: None,
            bottom_line: None,
            completion: None,
        };
        proof {
            assert(is_char_boundary(r.line@, 0));
        }
        r
    }

    /// Sets the prompt text; the session state is untouched.
    pub fn set_prompt(&mut self, prompt: &str)
        ensures
            final (self).prompt_view() == prompt@,
            final (self).model() == old(self).model(),
            final (self).spec_terminal() == old(self).spec_terminal(),
    {
        self.prompt = prompt.to_owned();
    }

    /// The line as currently edited.
    pub fn current_line(&self) -> (r: String)
        requires
            self.wf(),
        ensures
            r@ == decode_utf8(self.model().line),
    {
        bytes_to_string(&self.line)
    }

    /// The byte cursor into the line.
    pub fn cursor_position(&self) -> (r: usize)
        ensures
            r as int == self.model().cursor,
    {
        self.cursor
    }

    /// True while completion is active (cycling over candidates).
    pub fn completion_active(&self) -> (r: bool)
        ensures
            r == (self.model().completion is Some),
    {
        self.completion.is_some()
    }

    /// The history index being browsed, if any.
    pub fn history_position(&self) -> (r: Option<usize>)
        ensures
            match r {
                Some(p) => self.model().history_pos == Some(p as int),
                None => self.model().history_pos is None,
            },
    {
        self.history_pos
    }

    /// Resolves one input event to at most one action, by the fixed key
    /// table.  Purely a lookup; no side effects.
    pub fn resolve_action(&self, event: &InputEvent) -> (r: Option<Action>)
        ensures
            match r {
                Some(a) => resolve_event(event@) == Some(a@),
                None => resolve_event(event@) is None,
            },
    {
        match event {
            InputEvent::Paste(text) => Some(Action::InsertText(1, text.clone())),
            InputEvent::Key(ke) => {
                let m = ke.modifiers;
                let ctrl = m.ctrl && !m.alt && !m.shift && !m.sup;
                let alt = !m.ctrl && m.alt && !m.shift && !m.sup;
                let shift = !m.ctrl && !m.alt && m.shift && !m.sup;
                let none = !m.ctrl && !m.alt && !m.shift && !m.sup;
                match ke.key {
                    KeyCode::Char(c) => {
                        if ctrl {
                            if c == 'C' {
                                Some(Action::Cancel)
                            } else if c == 'D' {
                                Some(Action::EndOfFile)
                            } else if c == 'J' || c == 'M' {
                                Some(Action::AcceptLine)
                            } else if c == 'H' {
                                Some(Action::Kill(Movement::BackwardChar(1)))
                            } else if c == 'P' {
                                Some(Action::HistoryPrevious)
                            } else if c == 'N' {
                                Some(Action::HistoryNext)
                            } else if c == 'B' {
                                Some(Action::Move(Movement::BackwardChar(1)))
                            } else if c == 'W' {
                                Some(Action::Kill(Movement::BackwardWord(1)))
                            } else if c == 'A' {
                                Some(Action::Move(Movement::StartOfLine))
                            } else if c == 'E' {
                                Some(Action::Move(Movement::EndOfLine))
                            } else if c == 'F' {
                                Some(Action::Move(Movement::ForwardChar(1)))
                            } else if c == 'L' {
                                Some(Action::Repaint)
                            } else if c == 'K' {
                                Some(Action::Kill(Movement::EndOfLine))
                            } else {
                                None
                            }
                        } else if alt {
                            if c == 'b' {
                                Some(Action::Move(Movement::BackwardWord(1)))
                            } else if c == 'f' {
                                Some(Action::Move(Movement::ForwardWord(1)))
                            } else {
                                None
                            }
                        } else if none || shift {
                            Some(Action::InsertChar(1, c))
                        } else {
                            None
                        }
                    },
                    KeyCode::Tab => if none {
                        Some(Action::Complete)
                    } else {
                        None
                    },
                    KeyCode::Enter => if none {
                        Some(Action::AcceptLine)
                    } else {
                        None
                    },
                    KeyCode::Backspace => if none {
                        Some(Action::Kill(Movement::BackwardChar(1)))
                    } else {
                        None
                    },
                    KeyCode::UpArrow => if none {
                        Some(Action::HistoryPrevious)
                    } else {
                        None
                    },
                    KeyCode::DownArrow => if none {
                        Some(Action::HistoryNext)
                    } else {
                        None
                    },
                    KeyCode::LeftArrow => if none {
                        Some(Action::Move(Movement::BackwardChar(1)))
                    } else if alt {
                        Some(Action::Move(Movement::BackwardWord(1)))
                    } else {
                        None
                    },
                    KeyCode::RightArrow => if none {
                        Some(Action::Move(Movement::ForwardChar(1)))
                    } else if alt {
                        Some(Action::Move(Movement::ForwardWord(1)))
                    } else {
                        None
                    },
                    KeyCode::Home => if none {
                        Some(Action::Move(Movement::StartOfLine))
                    } else {
                        None
                    },
                    KeyCode::End => if none {
                        Some(Action::Move(Movement::EndOfLine))
                    } else {
                        None
                    },
                    _ => None,
                }
            },
        }
    }

    /// Computes the cursor position the given movement leads to, on the
    /// current line.
    pub fn eval_movement(&self, movement: Movement) -> (r: usize)
        requires
            self.wf(),
        ensures
            r as int == move_target(self.model().line, self.model().cursor, movement),
            is_char_boundary(self.model().line, r as int),
            r <= self.model().line.len(),
            movement == Movement::StartOfLine ==> r == 0,
            movement == Movement::EndOfLine ==> r as int == self.model().line.len(),
    {
        crate::movement::eval_movement(&self.line, self.cursor, movement)
    }

    /// Forces completion back to idle.
    pub fn clear_completion(&mut self)
        ensures
            final (self).model() == (EditorModel { completion: None, ..old(self).model() }),
            old(self).wf() ==> final (self).wf(),
            final (self).spec_terminal() == old(self).spec_terminal(),
            final (self).prompt_view() == old(self).prompt_view(),
    {
        self.completion = None;
    }

    /// Deletes the byte range between the cursor and the movement target,
    /// leaving the cursor at the movement target clamped to the new line
    /// length.  For the kills the key table issues (backward kills and
    /// kill-to-end-of-line) the clamped cursor is a character boundary and
    /// the state stays well-formed.
    pub fn kill_text(&mut self, movement: Movement)
        requires
            old(self).wf(),
        ensures
            final (self).model() == kill_step(old(self).model(), movement),
            kill_stays_aligned(old(self).model(), movement) ==> final (self).wf(),
            valid_utf8(final (self).model().line),
            0 <= final (self).model().cursor <= final (self).model().line.len(),
            final (self).model().completion is None,
            final (self).spec_terminal() == old(self).spec_terminal(),
            final (self).prompt_view() == old(self).prompt_view(),
    {
        self.clear_completion();
        let new_cursor = crate::movement::eval_movement(&self.line, self.cursor, movement);
        let lower = if new_cursor < self.cursor {
            new_cursor
        } else {
            self.cursor
        };
        let upper = if new_cursor < self.cursor {
            self.cursor
        } else {
            new_cursor
        };
        let empty: Vec<u8> = Vec::new();
        let new_line = splice_bytes(&self.line, lower, upper, &empty);
        proof {
            lemma_splice_valid(self.line@, lower as int, upper as int, empty@);
            assert(new_line@ =~= self.line@.subrange(0, lower as int) + self.line@.subrange(
                upper as int,
                self.line@.len() as int,
            ));
        }
        self.line = new_line;
        let nl = self.line.len();
        self.cursor = if new_cursor <= nl {
            new_cursor
        } else {
            nl
        };
        proof {
            let m0 = old(self).model();
            let t = move_target(m0.line, m0.cursor, movement);
            if t <= m0.cursor {
                // the clamp keeps the target: it is the start of the
                // removed range, a boundary of the spliced line
                assert(self.cursor as int == lower as int);
            } else if t == m0.line.len() {
                // everything from the cursor on was removed: the clamp
                // lands at the new end of the line
                assert(self.cursor as int == nl as int);
                assert(is_char_boundary(self.line@, nl as int)) by {
                    is_char_boundary_start_end_of_seq(self.line@);
                }
            }
        }
    }

    /// Moves the cursor to the movement target, clearing any active
    /// completion.
    pub fn move_cursor(&mut self, movement: Movement)
        requires
            old(self).wf(),
        ensures
            final (self).wf(),
            final (self).model() == move_step(old(self).model(), movement),
            final (self).spec_terminal() == old(self).spec_terminal(),
            final (self).prompt_view() == old(self).prompt_view(),
    {
        self.clear_completion();
        self.cursor = crate::movement::eval_movement(&self.line, self.cursor, movement);
    }

    /// Inserts the character at the cursor `rep` times; after each
    /// insertion the cursor advances to the next grapheme boundary of the
    /// new line, re-derived after the insert, so combining marks typed
    /// after a base character join its cluster.
    pub fn insert_char(&mut self, rep: usize, c: char)
        requires
            old(self).wf(),
        ensures
            final (self).wf(),
            final (self).model() == insert_char_step(old(self).model(), rep as nat, c),
            final (self).spec_terminal() == old(self).spec_terminal(),
            final (self).prompt_view() == old(self).prompt_view(),
    {
        self.clear_completion();
        let ghost line0 = self.line@;
        let ghost cursor0 = self.cursor as int;
        let mut k: usize = 0;
        while k < rep
            invariant
                valid_utf8(self.line@),
                self.cursor <= self.line@.len(),
                is_char_boundary(self.line@, self.cursor as int),
                k <= rep,
                (self.line@, self.cursor as int) == insert_char_rep(line0, cursor0, c, k as nat),
                self.model().history_pos == old(self).model().history_pos,
                self.model().bottom_line == old(self).model().bottom_line,
                self.model().completion is None,
                self.spec_terminal() == old(self).spec_terminal(),
                self.prompt_view() == old(self).prompt_view(),
            decreases rep - k,
        {
            let enc = encode_char_bytes(c);
            let new_line = splice_bytes(&self.line, self.cursor, self.cursor, &enc);
            proof {
                lemma_splice_valid(self.line@, self.cursor as int, self.cursor as int, enc@);
            }
            let ghost prev_line = self.line@;
            let ghost prev_cursor = self.cursor as int;
            self.line = new_line;
            match next_grapheme_boundary(&self.line, self.cursor) {
                Some(p) => {
                    proof {
                        lemma_next_gb_is(self.line@, self.cursor as int, p as int);
                        assert(insert_char_once(prev_line, prev_cursor, c) == (
                            self.line@,
                            next_gb(self.line@, prev_cursor),
                        ));
                    }
                    self.cursor = p;
                },
                None => {
                    proof {
                        assert(false);
                    }
                },
            }
            k = k + 1;
        }
    }

    /// Inserts the text at the cursor `rep` times; after each insertion
    /// the cursor advances by the inserted byte length.
    pub fn insert_text(&mut self, rep: usize, text: &str)
        requires
            old(self).wf(),
        ensures
            final (self).wf(),
            final (self).model() == insert_text_step(
                old(self).model(),
                rep as nat,
                encode_utf8(text@),
            ),
            final (self).spec_terminal() == old(self).spec_terminal(),
            final (self).prompt_view() == old(self).prompt_view(),
    {
        self.clear_completion();
        let t = str_bytes(text);
        let ghost line0 = self.line@;
        let ghost cursor0 = self.cursor as int;
        let mut k: usize = 0;
        while k < rep
            invariant
                valid_utf8(self.line@),
                valid_utf8(t@),
                t@ == encode_utf8(text@),
                self.cursor <= self.line@.len(),
                is_char_boundary(self.line@, self.cursor as int),
                k <= rep,
                (self.line@, self.cursor as int) == insert_text_rep(line0, cursor0, t@, k as nat),
                self.model().history_pos == old(self).model().history_pos,
                self.model().bottom_line == old(self).model().bottom_line,
                self.model().completion is None,
                self.spec_terminal() == old(self).spec_terminal(),
                self.prompt_view() == old(self).prompt_view(),
            decreases rep - k,
        {
            let new_line = splice_bytes(&self.line, self.cursor, self.cursor, &t);
            proof {
                lemma_splice_valid(self.line@, self.cursor as int, self.cursor as int, t@);
            }
            self.line = new_line;
            let n = self.line.len();
            proof {
                assert(self.cursor + t@.len() <= n);
            }
            self.cursor = self.cursor + t.len();
            k = k + 1;
        }
    }

    /// Recalls the previous (older) history entry, stashing the current
    /// line when browsing begins; at the oldest entry it stays put.
    pub fn history_previous<H: History>(&mut self, hist: &H)
        requires
            old(self).wf(),
        ensures
            final (self).wf(),
            final (self).model() == history_prev_step(old(self).model(), hist.entries()),
            final (self).spec_terminal() == old(self).spec_terminal(),
            final (self).prompt_view() == old(self).prompt_view(),
    {
        self.clear_completion();
        match self.history_pos {
            Some(cur) => {
                let prior = if cur > 0 {
                    cur - 1
                } else {
                    0
                };
                match hist.get(prior) {
                    Some(entry) => {
                        let bytes = str_bytes(entry.as_str());
                        proof {
                            is_char_boundary_start_end_of_seq(bytes@);
                        }
                        self.cursor = bytes.len();
                        self.line = bytes;
                        self.history_pos = Some(prior);
                    },
                    None => {},
                }
            },
            None => {
                match hist.last() {
                    Some(last) => {
                        match hist.get(last) {
                            Some(entry) => {
                                let mut bytes = str_bytes(entry.as_str());
                                proof {
                                    is_char_boundary_start_end_of_seq(bytes@);
                                }
                                self.cursor = bytes.len();
                                core::mem::swap(&mut self.line, &mut bytes);
                                self.bottom_line = Some(bytes);
                                self.history_pos = Some(last);
                            },
                            None => {
                                proof {
                                    assert(false);
                                }
                            },
                        }
                    },
                    None => {},
                }
            },
        }
    }

    /// Recalls the next (newer) history entry; at the newest it restores
    /// the stashed bottom line (or clears the line) and leaves browsing.
    pub fn history_next<H: History>(&mut self, hist: &H)
        requires
            old(self).wf(),
        ensures
            final (self).wf(),
            final (self).model() == history_next_step(old(self).model(), hist.entries()),
            final (self).spec_terminal() == old(self).spec_terminal(),
            final (self).prompt_view() == old(self).prompt_view(),
    {
        self.clear_completion();
        match self.history_pos {
            Some(cur) => {
                let stepped = match cur.checked_add(1) {
                    Some(next) => {
                        match hist.get(next) {
                            Some(entry) => {
                                let bytes = str_bytes(entry.as_str());
                                proof {
                                    is_char_boundary_start_end_of_seq(bytes@);
                                }
                                self.cursor = bytes.len();
                                self.line = bytes;
                                self.history_pos = Some(next);
                                true
                            },
                            None => false,
                        }
                    },
                    None => false,
                };
                if !stepped {
                    match self.bottom_line.take() {
                        Some(bottom) => {
                            proof {
                                is_char_boundary_start_end_of_seq(bottom@);
                            }
                            self.cursor = bottom.len();
                            self.line = bottom;
                            self.history_pos = None;
                        },
                        None => {
                            self.line = Vec::new();
                            self.cursor = 0;
                            self.history_pos = None;
                            proof {
                                assert(is_char_boundary(self.line@, 0));
                                assert(self.line@ =~= Seq::<u8>::empty());
                            }
                        },
                    }
                }
            },
            None => {},
        }
    }

    /// Starts completion over the given candidates: with none, or any
    /// that does not fit the current line and cursor, nothing happens;
    /// otherwise the line and cursor are snapshotted and the first
    /// candidate is applied.
    pub fn start_completion(&mut self, candidates: Vec<CompletionCandidate>)
        requires
            old(self).wf(),
            old(self).model().completion is None,
        ensures
            final (self).wf(),
            final (self).model() == start_completion_step(
                old(self).model(),
                to_candidate_models(candidates@),
            ),
            final (self).spec_terminal() == old(self).spec_terminal(),
            final (self).prompt_view() == old(self).prompt_view(),
    {
        let ghost cands = to_candidate_models(candidates@);
        let ghost cand_views = candidates@;
        match CompletionState::new(candidates, &self.line, self.cursor) {
            Some(st) => {
                proof {
                    assert(st@.candidates == cands);
                    assert forall|i: int| 0 <= i < cands.len() implies candidate_fits(
                        #[trigger] cands[i],
                        old(self).model().line,
                        old(self).model().cursor,
                    ) by {
                        assert(cands[i] == st@.candidates[i]);
                    }
                }
                let (cursor, line) = st.current();
                self.cursor = cursor;
                self.line = line;
                self.completion = Some(st);
                proof {
                    let m = old(self).model();
                    let cm = CompletionModel {
                        candidates: cands,
                        index: 0,
                        original_line: m.line,
                        original_cursor: m.cursor,
                    };
                    assert(st@ == cm);
                    assert(self.model().line == applied_line(m.line, cands[0]));
                    assert(self.model().cursor == applied_cursor(m.cursor, cands[0]));
                    assert(self.model() == start_completion_step(m, cands));
                }
            },
            None => {
                proof {
                    let m = old(self).model();
                    if cands.len() != 0 {
                        let i0 = choose|i: int|
                            0 <= i < cand_views.len() && !candidate_fits(
                                #[trigger] cand_views[i]@,
                                m.line,
                                m.cursor,
                            );
                        assert(cands[i0] == cand_views[i0]@);
                        assert(exists|i: int|
                            0 <= i < cands.len() && !candidate_fits(
                                #[trigger] cands[i],
                                m.line,
                                m.cursor,
                            ));
                    }
                    assert(self.model() == start_completion_step(m, cands));
                }
            },
        }
    }

    /// Advances an active completion to its next candidate, re-applying
    /// against the immutable snapshot; with completion idle this does
    /// nothing.
    pub fn cycle_completion(&mut self)
        requires
            old(self).wf(),
        ensures
            final (self).wf(),
            final (self).model() == cycle_completion_step(old(self).model()),
            final (self).spec_terminal() == old(self).spec_terminal(),
            final (self).prompt_view() == old(self).prompt_view(),
    {
        match &mut self.completion {
            Some(state) => {
                state.next();
                let (cursor, line) = state.current();
                self.cursor = cursor;
                self.line = line;
            },
            None => {},
        }
    }

    /// Renders the prompt and the line through the host's styling
    /// callbacks; the session state is untouched.
    fn render<HO: LineEditorHost>(&mut self, host: &HO) -> (r: Result<(), LineEditError>)
        requires
            old(self).wf(),
        ensures
            final (self).wf(),
            final (self).model() == old(self).model(),
            final (self).prompt_view() == old(self).prompt_view(),
            final (self).spec_terminal().script() == old(self).spec_terminal().script(),
            final (self).spec_terminal().in_raw_mode() == old(self).spec_terminal().in_raw_mode(),
            r matches Err(e) ==> e == LineEditError::Transport,
    {
        let line_str = bytes_to_string(&self.line);
        let prompt_elements = host.render_prompt(self.prompt.as_str());
        let (line_elements, cursor_x) = host.highlight_line(line_str.as_str(), self.cursor);
        let changes = compose_render_changes(prompt_elements, line_elements, cursor_x);
        self.terminal.render(&changes)
    }

    #[verifier::rlimit(60)]
    fn read_line_impl<HO: LineEditorHost>(&mut self, host: &HO) -> (r: Result<
        Option<String>,
        LineEditError,
    >)
        requires
            old(self).wf(),
        ensures
            final (self).wf(),
            r matches Ok(Some(s)) ==> s@ == decode_utf8(final (self).model().line),
            r matches Ok(Some(s)) ==> session_end_of(old(self).spec_terminal().script()) == Some(
                ActionModel::AcceptLine,
            ) || session_end_of(old(self).spec_terminal().script()) is None,
            r matches Ok(Some(s)) ==> (replay(
                session_start_model(),
                old(self).spec_terminal().script(),
                host.history_entries(),
            ) matches Some(m) ==> s@ == decode_utf8(m.line)),
            r matches Ok(None) ==> session_end_of(old(self).spec_terminal().script()) == Some(
                ActionModel::Cancel,
            ),
            r matches Err(e) && e == LineEditError::EndOfFile ==> session_end_of(
                old(self).spec_terminal().script(),
            ) == Some(ActionModel::EndOfFile),
            final (self).spec_terminal().in_raw_mode() == old(self).spec_terminal().in_raw_mode(),
    {
        self.line = Vec::new();
        self.cursor = 0;
        self.history_pos = None;
        self.bottom_line = None;
        self.clear_completion();
        proof {
            assert(is_char_boundary(self.line@, 0));
            assert(self.model() == session_start_model());
        }
        let ghost script0 = self.spec_terminal().script();
        let ghost entries0 = host.history_entries();
        match self.render(host) {
            Ok(u) => u,
            Err(e) => {
                return Err(e);
            },
        };
        let ghost mut complete_seen: bool = false;
        loop
            invariant_except_break
                self.wf(),
                script0 == old(self).spec_terminal().script(),
                entries0 == host.history_entries(),
                self.spec_terminal().in_raw_mode() == old(self).spec_terminal().in_raw_mode(),
                session_end_of(script0) == session_end_of(self.spec_terminal().script()),
                !complete_seen ==> replay(session_start_model(), script0, entries0) == replay(
                    self.model(),
                    self.spec_terminal().script(),
                    entries0,
                ),
                complete_seen ==> replay(session_start_model(), script0, entries0) is None,
            ensures
                self.wf(),
                script0 == old(self).spec_terminal().script(),
                entries0 == host.history_entries(),
                self.spec_terminal().in_raw_mode() == old(self).spec_terminal().in_raw_mode(),
                session_end_of(script0) == Some(ActionModel::AcceptLine) || session_end_of(script0)
                    is None,
                replay(session_start_model(), script0, entries0) matches Some(m) ==> m
                    == self.model(),
            decreases self.terminal.script().len(),
        {
            let ghost m_pre = self.model();
            let ghost script_pre = self.spec_terminal().script();
            let polled = self.terminal.poll_input();
            match polled {
                Err(e) => {
                    return Err(e);
                },
                Ok(None) => {
                    proof {
                        assert(session_end_of(script_pre) is None);
                        if !complete_seen {
                            assert(replay(m_pre, script_pre, entries0) == Some(m_pre));
                        }
                    }
                    break ;
                },
                Ok(Some(event)) => {
                    let ghost ra = resolve_event(event@);
                    proof {
                        assert(event@ == script_pre[0]@);
                    }
                    match self.resolve_action(&event) {
                        Some(Action::Cancel) => {
                            proof {
                                assert(session_end_of(script0) == Some(ActionModel::Cancel));
                            }
                            return Ok(None);
                        },
                        Some(Action::AcceptLine) => {
                            proof {
                                assert(session_end_of(script0) == Some(ActionModel::AcceptLine));
                                if !complete_seen {
                                    assert(replay(m_pre, script_pre, entries0) == Some(m_pre));
                                }
                            }
                            break ;
                        },
                        Some(Action::EndOfFile) => {
                            proof {
                                assert(session_end_of(script0) == Some(ActionModel::EndOfFile));
                            }
                            return Err(LineEditError::EndOfFile);
                        },
                        Some(Action::Kill(movement)) => {
                            proof {
                                // the key table only ever kills backward or
                                // to the end of the line, so the clamped
                                // cursor stays on a character boundary
                                assert(movement == Movement::BackwardChar(1) || movement
                                    == Movement::BackwardWord(1) || movement
                                    == Movement::EndOfLine);
                                if movement != Movement::EndOfLine {
                                    crate::movement::lemma_backward_movement_le(
                                        self.model().line,
                                        self.model().cursor,
                                        movement,
                                    );
                                }
                                assert(kill_stays_aligned(self.model(), movement));
                            }
                            self.kill_text(movement);
                            proof {
                                assert(self.model() == edit_step(
                                    m_pre,
                                    ActionModel::Kill(movement),
                                    entries0,
                                ));
                            }
                        },
                        Some(Action::Move(movement)) => {
                            self.move_cursor(movement);
                            proof {
                                assert(self.model() == edit_step(
                                    m_pre,
                                    ActionModel::Move(movement),
                                    entries0,
                                ));
                            }
                        },
                        Some(Action::InsertChar(rep, c)) => {
                            self.insert_char(rep, c);
                            proof {
                                assert(self.model() == edit_step(
                                    m_pre,
                                    ActionModel::InsertChar(rep, c),
                                    entries0,
                                ));
                            }
                        },
                        Some(Action::InsertText(rep, text)) => {
                            self.insert_text(rep, text.as_str());
                            proof {
                                assert(ra == Some(ActionModel::InsertText(rep, text@)));
                                assert(self.model() == edit_step(
                                    m_pre,
                                    ActionModel::InsertText(rep, text@),
                                    entries0,
                                ));
                            }
                        },
                        Some(Action::Repaint) => {
                            self.clear_completion();
                            let mut changes: Vec<Change> = Vec::new();
                            changes.push(Change::ClearScreen);
                            match self.terminal.render(&changes) {
                                Ok(u) => u,
                                Err(e) => {
                                    return Err(e);
                                },
                            };
                            proof {
                                assert(self.model() == edit_step(
                                    m_pre,
                                    ActionModel::Repaint,
                                    entries0,
                                ));
                            }
                        },
                        Some(Action::HistoryPrevious) => {
                            self.history_previous(host.history());
                            proof {
                                assert(self.model() == edit_step(
                                    m_pre,
                                    ActionModel::HistoryPrevious,
                                    entries0,
                                ));
                            }
                        },
                        Some(Action::HistoryNext) => {
                            self.history_next(host.history());
                            proof {
                                assert(self.model() == edit_step(
                                    m_pre,
                                    ActionModel::HistoryNext,
                                    entries0,
                                ));
                            }
                        },
                        Some(Action::Complete) => {
                            proof {
                                if !complete_seen {
                                    assert(replay(m_pre, script_pre, entries0) is None);
                                }
                                complete_seen = true;
                            }
                            if self.completion.is_none() {
                                let line_str = bytes_to_string(&self.line);
                                let candidates = host.complete(line_str.as_str(), self.cursor);
                                self.start_completion(candidates);
                            } else {
                                self.cycle_completion();
                            }
                        },
                        None => {},
                    }
                    proof {
                        assert(session_end_of(script_pre) == session_end_of(
                            self.spec_terminal().script(),
                        ));
                        if !complete_seen {
                            assert(replay(m_pre, script_pre, entries0) == replay(
                                self.model(),
                                self.spec_terminal().script(),
                                entries0,
                            ));
                        }
                    }
                    match self.render(host) {
                        Ok(u) => u,
                        Err(e) => {
                            return Err(e);
                        },
                    };
                },
            }
        }
        Ok(Some(bytes_to_string(&self.line)))
    }

    /// Enters line-editing mode and blocks until a line is accepted, the
    /// editor is cancelled, or an error occurs.
    ///
    /// Returns `Ok(Some(line))` for an accepted line, `Ok(None)` when the
    /// session was cancelled, and `Err(LineEditError::EndOfFile)` for an
    /// end-of-file request; transport failures are propagated as errors.
    /// Whatever the outcome, cooked mode is restored and a trailing
    /// newline is emitted before this returns.
    ///
    /// The contract ties each outcome to the transport's event script: no
    /// line is returned only when the script's first session-ending action
    /// is `Cancel`, the end-of-file error only when it is `EndOfFile`, and
    /// a returned line only on `AcceptLine` or the end of the stream — in
    /// which case, for a script with no completion requests, the line is
    /// exactly the replay of the events over a fresh session.
    pub fn read_line<HO: LineEditorHost>(&mut self, host: &HO) -> (r: Result<
        Option<String>,
        LineEditError,
    >)
        requires
            old(self).wf(),
        ensures
            final (self).wf(),
            r matches Ok(Some(s)) ==> s@ == decode_utf8(final (self).model().line),
            r matches Ok(Some(s)) ==> session_end_of(old(self).spec_terminal().script()) == Some(
                ActionModel::AcceptLine,
            ) || session_end_of(old(self).spec_terminal().script()) is None,
            r matches Ok(Some(s)) ==> (replay(
                session_start_model(),
                old(self).spec_terminal().script(),
                host.history_entries(),
            ) matches Some(m) ==> s@ == decode_utf8(m.line)),
            r matches Ok(None) ==> session_end_of(old(self).spec_terminal().script()) == Some(
                ActionModel::Cancel,
            ),
            r matches Err(e) && e == LineEditError::EndOfFile ==> session_end_of(
                old(self).spec_terminal().script(),
            ) == Some(ActionModel::EndOfFile),
            !(r matches Err(e) && e == LineEditError::Transport)
                ==> !final (self).spec_terminal().in_raw_mode(),
    {
        match self.terminal.set_raw_mode() {
            Ok(u) => u,
            Err(e) => {
                return Err(e);
            },
        };
        let res = self.read_line_impl(host);
        match self.terminal.set_cooked_mode() {
            Ok(u) => u,
            Err(e) => {
                return Err(e);
            },
        };
        let mut changes: Vec<Change> = Vec::new();
        changes.push(Change::Text("\r\n".to_owned()));
        match self.terminal.render(&changes) {
            Ok(u) => u,
            Err(e) => {
                return Err(e);
            },
        };
        match self.terminal.flush() {
            Ok(u) => u,
            Err(e) => {
                return Err(e);
            },
        };
        res
    }
}

} // verus!
