//! Styled output: the display changes the editor sends to the terminal,
//! and the styled fragments the host hands back for the prompt and the
//! line.

use unicode_width::UnicodeWidthStr;
use vstd::prelude::*;

verus! {

broadcast use vstd::seq::group_seq_axioms;

/// A one-dimensional cursor position request.
#[derive(Debug, Clone, Copy, PartialEq, Eq, Structural)]
pub enum Position {
    /// Move to this absolute column or row.
    Absolute(usize),
    /// Keep the current column or row.
    NoChange,
}

/// A display attribute a styled fragment can switch on.
#[derive(Debug, Clone, Copy, PartialEq, Eq, Structural)]
pub enum TextAttribute {
    Bold,
    Dim,
    Underlined,
    Reverse,
}

/// One styled fragment produced by a host callback.
#[derive(Debug, Clone, PartialEq, Eq)]
pub enum OutputElement {
    /// Text to display.
    Text(String),
    /// A display attribute change.
    Attribute(TextAttribute),
}

/// One display change sent to the terminal.
#[derive(Debug, Clone, PartialEq, Eq)]
pub enum Change {
    /// Text to display at the current position.
    Text(String),
    /// Reposition the visible cursor.
    CursorPosition { x: Position, y: Position },
    /// Clear from the current position to the end of the screen.
    ClearToEndOfScreen,
    /// Clear the whole screen.
    ClearScreen,
    /// Reset all display attributes to their defaults.
    ResetAttributes,
    /// Switch on one display attribute.
    Attribute(TextAttribute),
}

/// The display change a styled fragment turns into.
pub open spec fn change_of(e: OutputElement) -> Change {
    match e {
        OutputElement::Text(s) => Change::Text(s),
        OutputElement::Attribute(a) => Change::Attribute(a),
    }
}

impl OutputElement {
    /// Turns the fragment into the display change that emits it.
    pub fn into_change(self) -> (r: Change)
        ensures
            r == change_of(self),
    {
        match self {
            OutputElement::Text(s) => Change::Text(s),
            OutputElement::Attribute(a) => Change::Attribute(a),
        }
    }
}

/// The number of terminal columns a string occupies when displayed, a
/// function of its characters alone.
pub uninterp spec fn display_width_of(s: Seq<char>) -> usize;

/// Relies on `unicode_width::UnicodeWidthStr::width`: the displayed column
/// width of the string.
#[verifier::external_body]
pub(crate) fn unicode_column_width(s: &str) -> (r: usize)
    ensures
        r == display_width_of(s@),
{
    UnicodeWidthStr::width(s)
}

/// Addition on column counts, saturating at the largest `usize`.
pub open spec fn sat_add_usize(a: int, b: int) -> int {
    if a + b > usize::MAX {
        usize::MAX as int
    } else {
        a + b
    }
}

/// The columns one styled fragment occupies: its text width, or none for
/// an attribute change.
pub open spec fn element_width(e: OutputElement) -> int {
    match e {
        OutputElement::Text(s) => display_width_of(s@) as int,
        OutputElement::Attribute(_) => 0,
    }
}

/// The summed display width of a sequence of styled fragments.
pub open spec fn prompt_width_of(elems: Seq<OutputElement>) -> int
    decreases elems.len(),
{
    if elems.len() == 0 {
        0
    } else {
        sat_add_usize(prompt_width_of(elems.drop_last()), element_width(elems.last()))
    }
}

/// Assembles the display changes of one render pass: clear to the end of
/// the screen, reset attributes, emit the prompt fragments, reset
/// attributes again, emit the line fragments, and finally park the visible
/// cursor at the prompt width plus the host-declared cursor column.
pub fn compose_render_changes(
    prompt_elements: Vec<OutputElement>,
    line_elements: Vec<OutputElement>,
    cursor_x: usize,
) -> (r: Vec<Change>)
    ensures
        r@.len() == prompt_elements@.len() + line_elements@.len() + 5,
        r@[0] == (Change::CursorPosition { x: Position::Absolute(0), y: Position::NoChange }),
        r@[1] == Change::ClearToEndOfScreen,
        r@[2] == Change::ResetAttributes,
        forall|i: int|
            0 <= i < prompt_elements@.len() ==> r@[3 + i] == change_of(prompt_elements@[i]),
        r@[3 + prompt_elements@.len() as int] == Change::ResetAttributes,
        forall|i: int|
            0 <= i < line_elements@.len() ==> r@[4 + prompt_elements@.len() + i] == change_of(
                line_elements@[i],
            ),
        r@.last() == (Change::CursorPosition {
            x: Position::Absolute(
                sat_add_usize(prompt_width_of(prompt_elements@), cursor_x as int) as usize,
            ),
            y: Position::NoChange,
        }),
{
    let ghost pe0 = prompt_elements@;
    let ghost le0 = line_elements@;
    let mut pe = prompt_elements;
    let mut le = line_elements;
    let mut out: Vec<Change> = Vec::new();
    out.push(Change::CursorPosition { x: Position::Absolute(0), y: Position::NoChange });
    out.push(Change::ClearToEndOfScreen);
    out.push(Change::ResetAttributes);
    let mut width: usize = 0;
    proof {
        assert(pe@ =~= pe0.skip(0));
        assert(pe0.take(0) =~= Seq::<OutputElement>::empty());
    }
    while pe.len() > 0
        invariant
            pe@.len() <= pe0.len(),
            pe@ == pe0.skip(pe0.len() - pe@.len()),
            out@.len() == 3 + pe0.len() - pe@.len(),
            out@[0] == (Change::CursorPosition {
                x: Position::Absolute(0),
                y: Position::NoChange,
            }),
            out@[1] == Change::ClearToEndOfScreen,
            out@[2] == Change::ResetAttributes,
            forall|i: int| 0 <= i < pe0.len() - pe@.len() ==> out@[3 + i] == change_of(pe0[i]),
            width as int == prompt_width_of(pe0.take(pe0.len() - pe@.len())),
        decreases pe@.len(),
    {
        let ghost consumed = pe0.len() - pe@.len();
        let ghost prev = pe@;
        let e = pe.remove(0);
        proof {
            assert(prev == pe0.skip(consumed));
            assert(prev[0] == pe0[consumed]);
            assert(e == pe0[consumed]);
            assert(pe@ == prev.remove(0));
            assert(pe@ =~= pe0.skip(consumed + 1)) by {
                assert forall|j: int| 0 <= j < pe@.len() implies pe@[j] == pe0[consumed + 1 + j] by {
                    assert(pe@[j] == prev[j + 1]);
                }
            }
            assert(pe0.take(consumed + 1).drop_last() =~= pe0.take(consumed));
            assert(pe0.take(consumed + 1).last() == pe0[consumed]);
        }
        match &e {
            OutputElement::Text(t) => {
                let w = unicode_column_width(t.as_str());
                width = width.saturating_add(w);
            },
            OutputElement::Attribute(_) => {},
        }
        out.push(e.into_change());
    }
    proof {
        assert(pe0.take(pe0.len() as int) =~= pe0);
    }
    out.push(Change::ResetAttributes);
    proof {
        assert(le@ =~= le0.skip(0));
    }
    while le.len() > 0
        invariant
            le@.len() <= le0.len(),
            le@ == le0.skip(le0.len() - le@.len()),
            out@.len() == 4 + pe0.len() + le0.len() - le@.len(),
            out@[0] == (Change::CursorPosition {
                x: Position::Absolute(0),
                y: Position::NoChange,
            }),
            out@[1] == Change::ClearToEndOfScreen,
            out@[2] == Change::ResetAttributes,
            forall|i: int| 0 <= i < pe0.len() ==> out@[3 + i] == change_of(pe0[i]),
            out@[3 + pe0.len() as int] == Change::ResetAttributes,
            forall|i: int|
                0 <= i < le0.len() - le@.len() ==> out@[4 + pe0.len() + i] == change_of(le0[i]),
            width as int == prompt_width_of(pe0),
        decreases le@.len(),
    {
        let ghost consumed = le0.len() - le@.len();
        let ghost prev = le@;
        let e = le.remove(0);
        proof {
            assert(prev == le0.skip(consumed));
            assert(prev[0] == le0[consumed]);
            assert(e == le0[consumed]);
            assert(le@ == prev.remove(0));
            assert(le@ =~= le0.skip(consumed + 1)) by {
                assert forall|j: int| 0 <= j < le@.len() implies le@[j] == le0[consumed + 1 + j] by {
                    assert(le@[j] == prev[j + 1]);
                }
            }
        }
        out.push(e.into_change());
    }
    let x = width.saturating_add(cursor_x);
    out.push(Change::CursorPosition { x: Position::Absolute(x), y: Position::NoChange });
    out
}

} // verus!
