//! The editor actions that a command or a key can trigger.

use vstd::prelude::*;

verus! {

/// Something the editor can be asked to do.
#[derive(Debug, Clone, Copy, PartialEq, Eq, Structural)]
pub enum Action {
    Open,
    Save,
    Quit,
    ShowHelp,
    Undo,
    Redo,
    Copy,
    Cut,
    Paste,
    SelectAll,
    SelectWord,
    SelectLine,
    ExpandSelection,
    AddCursorAbove,
    AddCursorBelow,
    AddCursorNextMatch,
    RemoveSecondaryCursors,
}

} // verus!
