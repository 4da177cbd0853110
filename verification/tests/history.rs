use lineedit::{BasicHistory, History, LineEditor, ScriptedTerminal};

fn editor_with(text: &str) -> LineEditor<ScriptedTerminal> {
    let mut ed = LineEditor::new(ScriptedTerminal::new(Vec::new()));
    ed.insert_text(1, text);
    ed
}

fn two_entry_history() -> BasicHistory {
    let mut h = BasicHistory::new();
    h.add("one");
    h.add("two");
    h
}

#[test]
fn basic_history_get_and_last() {
    let h = two_entry_history();
    assert_eq!(h.get(0), Some("one".to_owned()));
    assert_eq!(h.get(1), Some("two".to_owned()));
    assert_eq!(h.get(2), None);
    assert_eq!(h.last(), Some(1));
    assert_eq!(BasicHistory::new().last(), None);
}

#[test]
fn previous_on_empty_history_is_a_noop() {
    let h = BasicHistory::new();
    let mut ed = editor_with("abc");
    ed.history_previous(&h);
    assert_eq!(ed.current_line(), "abc");
    assert_eq!(ed.cursor_position(), 3);
    assert_eq!(ed.history_position(), None);
}

#[test]
fn previous_recalls_most_recent_entry() {
    let h = two_entry_history();
    let mut ed = editor_with("cur");
    ed.history_previous(&h);
    assert_eq!(ed.current_line(), "two");
    assert_eq!(ed.cursor_position(), 3);
    assert_eq!(ed.history_position(), Some(1));
}

#[test]
fn previous_saturates_at_the_oldest_entry() {
    let h = two_entry_history();
    let mut ed = editor_with("cur");
    ed.history_previous(&h);
    ed.history_previous(&h);
    assert_eq!(ed.current_line(), "one");
    assert_eq!(ed.history_position(), Some(0));
    // repeating at the oldest entry changes nothing
    ed.history_previous(&h);
    ed.history_previous(&h);
    assert_eq!(ed.current_line(), "one");
    assert_eq!(ed.cursor_position(), 3);
    assert_eq!(ed.history_position(), Some(0));
}

#[test]
fn next_walks_back_to_the_pre_browse_line() {
    let h = two_entry_history();
    let mut ed = editor_with("cur");
    ed.history_previous(&h);
    ed.history_previous(&h);
    ed.history_next(&h);
    assert_eq!(ed.current_line(), "two");
    assert_eq!(ed.history_position(), Some(1));
    ed.history_next(&h);
    assert_eq!(ed.current_line(), "cur");
    assert_eq!(ed.cursor_position(), 3);
    assert_eq!(ed.history_position(), None);
}

#[test]
fn next_while_not_browsing_is_a_noop() {
    let h = two_entry_history();
    let mut ed = editor_with("cur");
    ed.history_next(&h);
    assert_eq!(ed.current_line(), "cur");
    assert_eq!(ed.history_position(), None);
}

#[test]
fn recalled_entry_has_cursor_at_its_end() {
    let mut h = BasicHistory::new();
    h.add("h\u{e9}llo");
    let mut ed = editor_with("");
    ed.history_previous(&h);
    assert_eq!(ed.current_line(), "h\u{e9}llo");
    assert_eq!(ed.cursor_position(), 6);
}
