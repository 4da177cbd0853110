use lineedit::{LineEditor, Movement, ScriptedTerminal};

fn editor() -> LineEditor<ScriptedTerminal> {
    LineEditor::new(ScriptedTerminal::new(Vec::new()))
}

#[test]
fn insert_char_appends_and_advances() {
    let mut ed = editor();
    ed.insert_char(1, 'a');
    ed.insert_char(1, 'b');
    assert_eq!(ed.current_line(), "ab");
    assert_eq!(ed.cursor_position(), 2);
}

#[test]
fn insert_char_repeats() {
    let mut ed = editor();
    ed.insert_char(3, 'x');
    assert_eq!(ed.current_line(), "xxx");
    assert_eq!(ed.cursor_position(), 3);
}

#[test]
fn combining_mark_joins_previous_cluster() {
    let mut ed = editor();
    ed.insert_char(1, 'e');
    assert_eq!(ed.cursor_position(), 1);
    ed.insert_char(1, '\u{301}');
    assert_eq!(ed.current_line(), "e\u{301}");
    // the cursor lands after the whole cluster, not inside it
    assert_eq!(ed.cursor_position(), 3);
}

#[test]
fn insert_char_mid_line() {
    let mut ed = editor();
    ed.insert_text(1, "ac");
    ed.move_cursor(Movement::BackwardChar(1));
    ed.insert_char(1, 'b');
    assert_eq!(ed.current_line(), "abc");
    assert_eq!(ed.cursor_position(), 2);
}

#[test]
fn insert_text_advances_by_byte_length() {
    let mut ed = editor();
    ed.insert_text(1, "h\u{e9}llo");
    assert_eq!(ed.current_line(), "h\u{e9}llo");
    assert_eq!(ed.cursor_position(), 6);
}

#[test]
fn insert_text_repeats() {
    let mut ed = editor();
    ed.insert_text(2, "ab");
    assert_eq!(ed.current_line(), "abab");
    assert_eq!(ed.cursor_position(), 4);
}

#[test]
fn kill_backward_word_leaves_trailing_space() {
    let mut ed = editor();
    ed.insert_text(1, "hello world");
    assert_eq!(ed.cursor_position(), 11);
    ed.kill_text(Movement::BackwardWord(1));
    assert_eq!(ed.current_line(), "hello ");
    assert_eq!(ed.cursor_position(), 6);
}

#[test]
fn kill_to_end_of_line_clamps_cursor() {
    let mut ed = editor();
    ed.insert_text(1, "hello");
    ed.move_cursor(Movement::StartOfLine);
    ed.move_cursor(Movement::ForwardChar(2));
    ed.kill_text(Movement::EndOfLine);
    assert_eq!(ed.current_line(), "he");
    assert_eq!(ed.cursor_position(), 2);
}

#[test]
fn kill_backward_char_deletes_one_grapheme() {
    let mut ed = editor();
    ed.insert_text(1, "ab");
    ed.kill_text(Movement::BackwardChar(1));
    assert_eq!(ed.current_line(), "a");
    assert_eq!(ed.cursor_position(), 1);
}

#[test]
fn kill_backward_char_on_multibyte_char() {
    let mut ed = editor();
    ed.insert_text(1, "n\u{e9}");
    ed.kill_text(Movement::BackwardChar(1));
    assert_eq!(ed.current_line(), "n");
    assert_eq!(ed.cursor_position(), 1);
}

#[test]
fn forward_kill_clamps_cursor_to_the_new_end() {
    let mut ed = editor();
    ed.insert_text(1, "a b");
    ed.move_cursor(Movement::StartOfLine);
    ed.kill_text(Movement::ForwardWord(1));
    assert_eq!(ed.current_line(), "b");
    // the movement target (byte 2) clamped to the new length
    assert_eq!(ed.cursor_position(), 1);
}

#[test]
fn kill_on_empty_line_is_noop() {
    let mut ed = editor();
    ed.kill_text(Movement::BackwardChar(1));
    assert_eq!(ed.current_line(), "");
    assert_eq!(ed.cursor_position(), 0);
}
