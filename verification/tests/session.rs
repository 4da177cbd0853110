use lineedit::{
    BasicHistory, ByteRange, CompletionCandidate, History, InputEvent, KeyCode, KeyEvent,
    LineEditError, LineEditor, LineEditorHost, Modifiers, NopLineEditorHost, OutputElement,
    ScriptedTerminal,
};

fn ch(c: char) -> InputEvent {
    InputEvent::Key(KeyEvent { key: KeyCode::Char(c), modifiers: Modifiers::none() })
}

fn ctrl(c: char) -> InputEvent {
    InputEvent::Key(KeyEvent { key: KeyCode::Char(c), modifiers: Modifiers::ctrl() })
}

fn special(key: KeyCode) -> InputEvent {
    InputEvent::Key(KeyEvent { key, modifiers: Modifiers::none() })
}

fn run(events: Vec<InputEvent>) -> Result<Option<String>, LineEditError> {
    let mut editor = LineEditor::new(ScriptedTerminal::new(events));
    let host = NopLineEditorHost::default();
    editor.read_line(&host)
}

#[test]
fn accepted_line_is_returned() {
    let r = run(vec![ch('h'), ch('i'), special(KeyCode::Enter)]);
    assert_eq!(r, Ok(Some("hi".to_owned())));
}

#[test]
fn cancel_returns_no_line() {
    // buffered edits are discarded, never surfaced
    let r = run(vec![ch('h'), ch('i'), ctrl('C')]);
    assert_eq!(r, Ok(None));
}

#[test]
fn ctrl_d_fails_with_end_of_file() {
    let r = run(vec![ch('h'), ctrl('D')]);
    assert_eq!(r, Err(LineEditError::EndOfFile));
}

#[test]
fn end_of_input_stream_yields_the_line_so_far() {
    let r = run(vec![ch('h'), ch('i')]);
    assert_eq!(r, Ok(Some("hi".to_owned())));
}

#[test]
fn backspace_edits_during_session() {
    let r = run(vec![ch('h'), ch('x'), special(KeyCode::Backspace), ch('i'), special(
        KeyCode::Enter,
    )]);
    assert_eq!(r, Ok(Some("hi".to_owned())));
}

#[test]
fn paste_is_inserted_verbatim() {
    let r = run(vec![InputEvent::Paste("h\u{e9}llo ".to_owned()), ch('w'), special(
        KeyCode::Enter,
    )]);
    assert_eq!(r, Ok(Some("h\u{e9}llo w".to_owned())));
}

#[test]
fn unmapped_keys_are_ignored_in_session() {
    let r = run(vec![ch('o'), special(KeyCode::Escape), ch('k'), special(KeyCode::Enter)]);
    assert_eq!(r, Ok(Some("ok".to_owned())));
}

#[test]
fn repaint_does_not_disturb_the_line() {
    let r = run(vec![ch('o'), ctrl('L'), ch('k'), special(KeyCode::Enter)]);
    assert_eq!(r, Ok(Some("ok".to_owned())));
}

#[test]
fn kill_word_scenario_in_session() {
    let mut events: Vec<InputEvent> = "hello world".chars().map(ch).collect();
    events.push(ctrl('W'));
    events.push(special(KeyCode::Enter));
    let r = run(events);
    assert_eq!(r, Ok(Some("hello ".to_owned())));
}

#[test]
fn history_recall_in_session() {
    let mut host = NopLineEditorHost::default();
    host.history_mut().add("older");
    host.history_mut().add("newer");
    let events = vec![special(KeyCode::UpArrow), special(KeyCode::Enter)];
    let mut editor = LineEditor::new(ScriptedTerminal::new(events));
    assert_eq!(editor.read_line(&host), Ok(Some("newer".to_owned())));
}

struct CompletingHost {
    history: BasicHistory,
}

impl LineEditorHost for CompletingHost {
    type Hist = BasicHistory;

    fn history(&self) -> &BasicHistory {
        &self.history
    }

    fn render_prompt(&self, prompt: &str) -> Vec<OutputElement> {
        vec![OutputElement::Text(prompt.to_owned())]
    }

    fn highlight_line(&self, line: &str, _cursor: usize) -> (Vec<OutputElement>, usize) {
        (vec![OutputElement::Text(line.to_owned())], 0)
    }

    fn complete(&self, _line: &str, cursor: usize) -> Vec<CompletionCandidate> {
        vec![
            CompletionCandidate {
                range: ByteRange { start: 0, end: cursor },
                text: "hello".to_owned(),
            },
            CompletionCandidate {
                range: ByteRange { start: 0, end: cursor },
                text: "help".to_owned(),
            },
        ]
    }
}

#[test]
fn tab_completion_in_session() {
    let host = CompletingHost { history: BasicHistory::new() };
    let events = vec![ch('h'), ch('e'), special(KeyCode::Tab), special(KeyCode::Enter)];
    let mut editor = LineEditor::new(ScriptedTerminal::new(events));
    assert_eq!(editor.read_line(&host), Ok(Some("hello".to_owned())));
}

#[test]
fn tab_cycling_replays_the_snapshot() {
    let host = CompletingHost { history: BasicHistory::new() };
    let events = vec![ch('h'), ch('e'), special(KeyCode::Tab), special(KeyCode::Tab), special(
        KeyCode::Enter,
    )];
    let mut editor = LineEditor::new(ScriptedTerminal::new(events));
    // the second candidate replaces the snapshotted "he", not "hello"
    assert_eq!(editor.read_line(&host), Ok(Some("help".to_owned())));
}

#[test]
fn set_prompt_does_not_disturb_the_session() {
    let events = vec![ch('o'), ch('k'), special(KeyCode::Enter)];
    let mut editor = LineEditor::new(ScriptedTerminal::new(events));
    editor.set_prompt("$ ");
    let host = NopLineEditorHost::default();
    assert_eq!(editor.read_line(&host), Ok(Some("ok".to_owned())));
}

#[test]
fn transport_failure_is_propagated() {
    let mut editor = LineEditor::new(ScriptedTerminal::failing(vec![ch('h')]));
    let host = NopLineEditorHost::default();
    assert_eq!(editor.read_line(&host), Err(LineEditError::Transport));
}
