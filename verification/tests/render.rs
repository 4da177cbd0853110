use lineedit::{compose_render_changes, Change, OutputElement, Position, TextAttribute};

fn text(s: &str) -> OutputElement {
    OutputElement::Text(s.to_owned())
}

#[test]
fn render_changes_have_the_documented_shape() {
    let changes = compose_render_changes(vec![text("> ")], vec![text("hi")], 2);
    assert_eq!(changes.len(), 7);
    assert_eq!(
        changes[0],
        Change::CursorPosition { x: Position::Absolute(0), y: Position::NoChange }
    );
    assert_eq!(changes[1], Change::ClearToEndOfScreen);
    assert_eq!(changes[2], Change::ResetAttributes);
    assert_eq!(changes[3], Change::Text("> ".to_owned()));
    assert_eq!(changes[4], Change::ResetAttributes);
    assert_eq!(changes[5], Change::Text("hi".to_owned()));
    assert_eq!(
        changes[6],
        Change::CursorPosition { x: Position::Absolute(4), y: Position::NoChange }
    );
}

#[test]
fn prompt_width_counts_display_columns_not_bytes() {
    // a CJK prompt occupies two columns per character: four columns, not
    // six bytes and not two characters
    let changes = compose_render_changes(vec![text("\u{65e5}\u{672c}")], Vec::new(), 1);
    assert_eq!(
        changes[changes.len() - 1],
        Change::CursorPosition { x: Position::Absolute(5), y: Position::NoChange }
    );
}

#[test]
fn attribute_fragments_occupy_no_columns() {
    let changes = compose_render_changes(
        vec![OutputElement::Attribute(TextAttribute::Bold), text("> ")],
        vec![text("x")],
        1,
    );
    assert_eq!(changes[3], Change::Attribute(TextAttribute::Bold));
    assert_eq!(
        changes[changes.len() - 1],
        Change::CursorPosition { x: Position::Absolute(3), y: Position::NoChange }
    );
}

#[test]
fn empty_prompt_and_line_still_park_the_cursor() {
    let changes = compose_render_changes(Vec::new(), Vec::new(), 0);
    assert_eq!(changes.len(), 5);
    assert_eq!(
        changes[4],
        Change::CursorPosition { x: Position::Absolute(0), y: Position::NoChange }
    );
}
