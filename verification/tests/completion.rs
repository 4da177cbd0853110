use lineedit::{
    ByteRange, CompletionCandidate, CompletionState, LineEditor, Movement, ScriptedTerminal,
};

fn cand(start: usize, end: usize, text: &str) -> CompletionCandidate {
    CompletionCandidate { range: ByteRange { start, end }, text: text.to_owned() }
}

fn editor_with(text: &str) -> LineEditor<ScriptedTerminal> {
    let mut ed = LineEditor::new(ScriptedTerminal::new(Vec::new()));
    ed.insert_text(1, text);
    ed
}

#[test]
fn single_candidate_cycles_to_itself() {
    let line = "he".as_bytes().to_vec();
    let mut st = CompletionState::new(vec![cand(0, 2, "hello")], &line, 2).unwrap();
    let (cursor, applied) = st.current();
    assert_eq!(cursor, 5);
    assert_eq!(applied, "hello".as_bytes().to_vec());
    st.next();
    let (cursor2, applied2) = st.current();
    assert_eq!(cursor2, 5);
    assert_eq!(applied2, "hello".as_bytes().to_vec());
}

#[test]
fn empty_candidate_list_does_not_activate() {
    let line = "he".as_bytes().to_vec();
    assert!(CompletionState::new(Vec::new(), &line, 2).is_none());
}

#[test]
fn unfit_candidate_list_does_not_activate() {
    let line = "he".as_bytes().to_vec();
    assert!(CompletionState::new(vec![cand(0, 5, "hello")], &line, 2).is_none());
}

#[test]
fn first_complete_applies_first_candidate() {
    let mut ed = editor_with("he");
    ed.start_completion(vec![cand(0, 2, "hello")]);
    assert!(ed.completion_active());
    assert_eq!(ed.current_line(), "hello");
    assert_eq!(ed.cursor_position(), 5);
}

#[test]
fn cycling_reapplies_against_the_snapshot() {
    let mut ed = editor_with("he");
    ed.start_completion(vec![cand(0, 2, "hello"), cand(0, 2, "help")]);
    assert_eq!(ed.current_line(), "hello");
    assert_eq!(ed.cursor_position(), 5);
    ed.cycle_completion();
    // applied to the original "he", never to "hello"
    assert_eq!(ed.current_line(), "help");
    assert_eq!(ed.cursor_position(), 4);
    ed.cycle_completion();
    assert_eq!(ed.current_line(), "hello");
    assert_eq!(ed.cursor_position(), 5);
}

#[test]
fn unfit_candidates_leave_the_line_alone() {
    let mut ed = editor_with("he");
    ed.start_completion(vec![cand(0, 9, "hello")]);
    assert!(!ed.completion_active());
    assert_eq!(ed.current_line(), "he");
    assert_eq!(ed.cursor_position(), 2);
}

#[test]
fn editing_action_returns_completion_to_idle() {
    let mut ed = editor_with("he");
    ed.start_completion(vec![cand(0, 2, "hello")]);
    assert!(ed.completion_active());
    ed.insert_char(1, 'x');
    assert!(!ed.completion_active());
    // the insertion has its ordinary effect on the completed line
    assert_eq!(ed.current_line(), "hellox");
    assert_eq!(ed.cursor_position(), 6);
}

#[test]
fn movement_action_returns_completion_to_idle() {
    let mut ed = editor_with("he");
    ed.start_completion(vec![cand(0, 2, "hello")]);
    ed.move_cursor(Movement::StartOfLine);
    assert!(!ed.completion_active());
    assert_eq!(ed.current_line(), "hello");
    assert_eq!(ed.cursor_position(), 0);
}

#[test]
fn kill_action_returns_completion_to_idle() {
    let mut ed = editor_with("he");
    ed.start_completion(vec![cand(0, 2, "hello")]);
    ed.kill_text(Movement::BackwardChar(1));
    assert!(!ed.completion_active());
    assert_eq!(ed.current_line(), "hell");
}

#[test]
fn mid_line_candidate_moves_cursor_by_the_difference() {
    // replace "wo" (bytes 6..8) of "hello world" with "words", cursor at 8
    let mut ed = editor_with("hello wo");
    ed.insert_text(1, "rld");
    ed.move_cursor(Movement::StartOfLine);
    ed.move_cursor(Movement::ForwardChar(8));
    ed.start_completion(vec![cand(6, 8, "words")]);
    assert_eq!(ed.current_line(), "hello wordsrld");
    assert_eq!(ed.cursor_position(), 11);
}
