use lineedit::{LineEditor, Movement, ScriptedTerminal};

fn editor_with(text: &str) -> LineEditor<ScriptedTerminal> {
    let mut ed = LineEditor::new(ScriptedTerminal::new(Vec::new()));
    ed.insert_text(1, text);
    ed
}

fn at(ed: &mut LineEditor<ScriptedTerminal>, cursor_chars: usize) {
    ed.move_cursor(Movement::StartOfLine);
    ed.move_cursor(Movement::ForwardChar(cursor_chars));
}

#[test]
fn start_of_line_is_always_zero() {
    let ed = editor_with("hello world");
    assert_eq!(ed.eval_movement(Movement::StartOfLine), 0);
    let empty = editor_with("");
    assert_eq!(empty.eval_movement(Movement::StartOfLine), 0);
}

#[test]
fn end_of_line_is_byte_length() {
    let ed = editor_with("hello");
    assert_eq!(ed.eval_movement(Movement::EndOfLine), 5);
    let accented = editor_with("h\u{e9}llo");
    assert_eq!(accented.eval_movement(Movement::EndOfLine), 6);
    let empty = editor_with("");
    assert_eq!(empty.eval_movement(Movement::EndOfLine), 0);
}

#[test]
fn forward_then_backward_char_round_trip() {
    let mut ed = editor_with("hello");
    at(&mut ed, 2);
    assert_eq!(ed.cursor_position(), 2);
    let fwd = ed.eval_movement(Movement::ForwardChar(1));
    assert_eq!(fwd, 3);
    ed.move_cursor(Movement::ForwardChar(1));
    assert_eq!(ed.eval_movement(Movement::BackwardChar(1)), 2);
}

#[test]
fn backward_then_forward_char_round_trip() {
    let mut ed = editor_with("h\u{e9}llo");
    ed.move_cursor(Movement::EndOfLine);
    ed.move_cursor(Movement::BackwardChar(2));
    let back = ed.cursor_position();
    ed.move_cursor(Movement::BackwardChar(1));
    assert_eq!(ed.eval_movement(Movement::ForwardChar(1)), back);
}

#[test]
fn char_movement_steps_over_grapheme_clusters() {
    // "e" + combining acute accent forms one cluster of three bytes.
    let mut ed = editor_with("e\u{301}x");
    ed.move_cursor(Movement::StartOfLine);
    assert_eq!(ed.eval_movement(Movement::ForwardChar(1)), 3);
    ed.move_cursor(Movement::EndOfLine);
    assert_eq!(ed.eval_movement(Movement::BackwardChar(1)), 3);
    assert_eq!(ed.eval_movement(Movement::BackwardChar(2)), 0);
}

#[test]
fn char_movement_clamps_at_the_ends() {
    let mut ed = editor_with("ab");
    ed.move_cursor(Movement::EndOfLine);
    assert_eq!(ed.eval_movement(Movement::ForwardChar(5)), 2);
    ed.move_cursor(Movement::StartOfLine);
    assert_eq!(ed.eval_movement(Movement::BackwardChar(3)), 0);
}

#[test]
fn backward_word_finds_word_start() {
    let mut ed = editor_with("hello world");
    ed.move_cursor(Movement::EndOfLine);
    assert_eq!(ed.eval_movement(Movement::BackwardWord(1)), 6);
    assert_eq!(ed.eval_movement(Movement::BackwardWord(2)), 0);
}

#[test]
fn forward_word_lands_on_next_word_start() {
    let mut ed = editor_with("hello world");
    ed.move_cursor(Movement::StartOfLine);
    assert_eq!(ed.eval_movement(Movement::ForwardWord(1)), 6);
    assert_eq!(ed.eval_movement(Movement::ForwardWord(2)), 11);
    assert_eq!(ed.eval_movement(Movement::ForwardWord(9)), 11);
}

#[test]
fn forward_word_skips_runs_of_whitespace() {
    let mut ed = editor_with("a  b");
    ed.move_cursor(Movement::StartOfLine);
    assert_eq!(ed.eval_movement(Movement::ForwardWord(1)), 3);
}

#[test]
fn word_movement_on_empty_line_stays_put() {
    let ed = editor_with("");
    assert_eq!(ed.eval_movement(Movement::BackwardWord(1)), 0);
    assert_eq!(ed.eval_movement(Movement::ForwardWord(1)), 0);
}
