//! The input dispatcher: what each key means to the directory panel and
//! to the modal file viewer. Raw keycodes arrive from the terminal
//! outside; the universal ASCII codes are classified here, the
//! terminal-specific navigation codes are mapped to `KeyEvent` by the
//! caller.

use vstd::prelude::*;

verus! {

/// One input event, as mapped from the raw keycode.
#[derive(Clone, Copy, PartialEq, Eq, Structural, Debug)]
pub enum KeyEvent {
    /// Move the selection up one row.
    Up,
    /// Move the selection down one row.
    Down,
    /// Act on the selected row.
    Enter,
    /// Close the current modal, or quit at the top level.
    Quit,
    /// The terminal was resized.
    Resize,
    /// Any other key; ignored.
    Other,
}

/// Meaning of the universal ASCII codes: `q` or Escape closes, carriage
/// return or line feed acts on the selection, anything else is ignored.
pub open spec fn classify_char_spec(c: int) -> KeyEvent {
    if c == 113 || c == 27 {
        KeyEvent::Quit
    } else if c == 10 || c == 13 {
        KeyEvent::Enter
    } else {
        KeyEvent::Other
    }
}

/// Classify a raw character code that is not one of the terminal's
/// special navigation codes.
pub fn classify_char(c: i32) -> (k: KeyEvent)
    ensures
        k == classify_char_spec(c as int),
{
    if c == 113 || c == 27 {
        KeyEvent::Quit
    } else if c == 10 || c == 13 {
        KeyEvent::Enter
    } else {
        KeyEvent::Other
    }
}

/// What the directory panel does for one event.
#[derive(Clone, Copy, PartialEq, Eq, Structural, Debug)]
pub enum DirOp {
    /// Move the selection up by one.
    MoveUp,
    /// Move the selection down by one.
    MoveDown,
    /// Act on the selected row (navigate or open).
    Activate,
    /// Recompute the layout and resize the panes.
    Relayout,
    /// Leave the program.
    Quit,
    /// Do nothing.
    Idle,
}

/// The directory panel's key table.
pub open spec fn dir_op_spec(k: KeyEvent) -> DirOp {
    match k {
        KeyEvent::Up => DirOp::MoveUp,
        KeyEvent::Down => DirOp::MoveDown,
        KeyEvent::Enter => DirOp::Activate,
        KeyEvent::Resize => DirOp::Relayout,
        KeyEvent::Quit => DirOp::Quit,
        KeyEvent::Other => DirOp::Idle,
    }
}

/// Map one event to the directory panel's operation.
pub fn dir_op(k: KeyEvent) -> (op: DirOp)
    ensures
        op == dir_op_spec(k),
{
    match k {
        KeyEvent::Up => DirOp::MoveUp,
        KeyEvent::Down => DirOp::MoveDown,
        KeyEvent::Enter => DirOp::Activate,
        KeyEvent::Resize => DirOp::Relayout,
        KeyEvent::Quit => DirOp::Quit,
        KeyEvent::Other => DirOp::Idle,
    }
}

/// What the modal file viewer does for one event.
#[derive(Clone, Copy, PartialEq, Eq, Structural, Debug)]
pub enum ViewerOp {
    /// Scroll the window up one line.
    ScrollUp,
    /// Scroll the window down one line.
    ScrollDown,
    /// Recompute the layout and re-populate the line window.
    Relayout,
    /// Close the viewer.
    Close,
    /// Do nothing.
    Idle,
}

/// The viewer's key table; Enter has no meaning inside the viewer.
pub open spec fn viewer_op_spec(k: KeyEvent) -> ViewerOp {
    match k {
        KeyEvent::Up => ViewerOp::ScrollUp,
        KeyEvent::Down => ViewerOp::ScrollDown,
        KeyEvent::Resize => ViewerOp::Relayout,
        KeyEvent::Quit => ViewerOp::Close,
        KeyEvent::Enter => ViewerOp::Idle,
        KeyEvent::Other => ViewerOp::Idle,
    }
}

/// Map one event to the viewer's operation.
pub fn viewer_op(k: KeyEvent) -> (op: ViewerOp)
    ensures
        op == viewer_op_spec(k),
{
    match k {
        KeyEvent::Up => ViewerOp::ScrollUp,
        KeyEvent::Down => ViewerOp::ScrollDown,
        KeyEvent::Resize => ViewerOp::Relayout,
        KeyEvent::Quit => ViewerOp::Close,
        KeyEvent::Enter => ViewerOp::Idle,
        KeyEvent::Other => ViewerOp::Idle,
    }
}

} // verus!
