use lineedit::{
    Action, InputEvent, KeyCode, KeyEvent, LineEditor, Modifiers, Movement, ScriptedTerminal,
};

fn editor() -> LineEditor<ScriptedTerminal> {
    LineEditor::new(ScriptedTerminal::new(Vec::new()))
}

fn key(key: KeyCode, modifiers: Modifiers) -> InputEvent {
    InputEvent::Key(KeyEvent { key, modifiers })
}

#[test]
fn ctrl_c_cancels() {
    let ed = editor();
    let r = ed.resolve_action(&key(KeyCode::Char('C'), Modifiers::ctrl()));
    assert_eq!(r, Some(Action::Cancel));
}

#[test]
fn ctrl_d_is_end_of_file() {
    let ed = editor();
    let r = ed.resolve_action(&key(KeyCode::Char('D'), Modifiers::ctrl()));
    assert_eq!(r, Some(Action::EndOfFile));
}

#[test]
fn tab_completes() {
    let ed = editor();
    let r = ed.resolve_action(&key(KeyCode::Tab, Modifiers::none()));
    assert_eq!(r, Some(Action::Complete));
}

#[test]
fn enter_and_ctrl_j_and_ctrl_m_accept() {
    let ed = editor();
    assert_eq!(
        ed.resolve_action(&key(KeyCode::Enter, Modifiers::none())),
        Some(Action::AcceptLine)
    );
    assert_eq!(
        ed.resolve_action(&key(KeyCode::Char('J'), Modifiers::ctrl())),
        Some(Action::AcceptLine)
    );
    assert_eq!(
        ed.resolve_action(&key(KeyCode::Char('M'), Modifiers::ctrl())),
        Some(Action::AcceptLine)
    );
}

#[test]
fn backspace_and_ctrl_h_kill_backward_char() {
    let ed = editor();
    let want = Some(Action::Kill(Movement::BackwardChar(1)));
    assert_eq!(ed.resolve_action(&key(KeyCode::Backspace, Modifiers::none())), want);
    assert_eq!(ed.resolve_action(&key(KeyCode::Char('H'), Modifiers::ctrl())), want);
}

#[test]
fn ctrl_w_kills_backward_word() {
    let ed = editor();
    assert_eq!(
        ed.resolve_action(&key(KeyCode::Char('W'), Modifiers::ctrl())),
        Some(Action::Kill(Movement::BackwardWord(1)))
    );
}

#[test]
fn ctrl_k_kills_to_end_of_line() {
    let ed = editor();
    assert_eq!(
        ed.resolve_action(&key(KeyCode::Char('K'), Modifiers::ctrl())),
        Some(Action::Kill(Movement::EndOfLine))
    );
}

#[test]
fn history_keys() {
    let ed = editor();
    assert_eq!(
        ed.resolve_action(&key(KeyCode::Char('P'), Modifiers::ctrl())),
        Some(Action::HistoryPrevious)
    );
    assert_eq!(
        ed.resolve_action(&key(KeyCode::UpArrow, Modifiers::none())),
        Some(Action::HistoryPrevious)
    );
    assert_eq!(
        ed.resolve_action(&key(KeyCode::Char('N'), Modifiers::ctrl())),
        Some(Action::HistoryNext)
    );
    assert_eq!(
        ed.resolve_action(&key(KeyCode::DownArrow, Modifiers::none())),
        Some(Action::HistoryNext)
    );
}

#[test]
fn char_movement_keys() {
    let ed = editor();
    let left = Some(Action::Move(Movement::BackwardChar(1)));
    let right = Some(Action::Move(Movement::ForwardChar(1)));
    assert_eq!(ed.resolve_action(&key(KeyCode::Char('B'), Modifiers::ctrl())), left);
    assert_eq!(ed.resolve_action(&key(KeyCode::LeftArrow, Modifiers::none())), left);
    assert_eq!(ed.resolve_action(&key(KeyCode::Char('F'), Modifiers::ctrl())), right);
    assert_eq!(ed.resolve_action(&key(KeyCode::RightArrow, Modifiers::none())), right);
}

#[test]
fn word_movement_keys() {
    let ed = editor();
    let back = Some(Action::Move(Movement::BackwardWord(1)));
    let fwd = Some(Action::Move(Movement::ForwardWord(1)));
    assert_eq!(ed.resolve_action(&key(KeyCode::Char('b'), Modifiers::alt())), back);
    assert_eq!(ed.resolve_action(&key(KeyCode::LeftArrow, Modifiers::alt())), back);
    assert_eq!(ed.resolve_action(&key(KeyCode::Char('f'), Modifiers::alt())), fwd);
    assert_eq!(ed.resolve_action(&key(KeyCode::RightArrow, Modifiers::alt())), fwd);
}

#[test]
fn line_ends_keys() {
    let ed = editor();
    let start = Some(Action::Move(Movement::StartOfLine));
    let end = Some(Action::Move(Movement::EndOfLine));
    assert_eq!(ed.resolve_action(&key(KeyCode::Char('A'), Modifiers::ctrl())), start);
    assert_eq!(ed.resolve_action(&key(KeyCode::Home, Modifiers::none())), start);
    assert_eq!(ed.resolve_action(&key(KeyCode::Char('E'), Modifiers::ctrl())), end);
    assert_eq!(ed.resolve_action(&key(KeyCode::End, Modifiers::none())), end);
}

#[test]
fn ctrl_l_repaints() {
    let ed = editor();
    assert_eq!(
        ed.resolve_action(&key(KeyCode::Char('L'), Modifiers::ctrl())),
        Some(Action::Repaint)
    );
}

#[test]
fn plain_and_shifted_characters_insert() {
    let ed = editor();
    assert_eq!(
        ed.resolve_action(&key(KeyCode::Char('x'), Modifiers::none())),
        Some(Action::InsertChar(1, 'x'))
    );
    assert_eq!(
        ed.resolve_action(&key(KeyCode::Char('X'), Modifiers::shift())),
        Some(Action::InsertChar(1, 'X'))
    );
}

#[test]
fn paste_inserts_text() {
    let ed = editor();
    let r = ed.resolve_action(&InputEvent::Paste("some text".to_owned()));
    assert_eq!(r, Some(Action::InsertText(1, "some text".to_owned())));
}

#[test]
fn unmapped_keys_are_dropped() {
    let ed = editor();
    assert_eq!(ed.resolve_action(&key(KeyCode::Escape, Modifiers::none())), None);
    assert_eq!(ed.resolve_action(&key(KeyCode::PageUp, Modifiers::none())), None);
    assert_eq!(ed.resolve_action(&key(KeyCode::FunctionKey(5), Modifiers::none())), None);
    assert_eq!(ed.resolve_action(&key(KeyCode::Char('Z'), Modifiers::ctrl())), None);
    let both = Modifiers { ctrl: true, alt: true, shift: false, sup: false };
    assert_eq!(ed.resolve_action(&key(KeyCode::Char('x'), both)), None);
}
