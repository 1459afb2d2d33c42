use vstd::prelude::*;

verus! {

/// A decoded keyboard input unit.
#[derive(Debug, Clone, Copy, PartialEq, Eq, Structural)]
pub enum Key {
    Null,
    ESC,
    Ctrl(char),
    Tab,
    Enter,
    BackTab,
    Backspace,
    AltBackTab,
    Up,
    Down,
    Left,
    Right,
    Home,
    End,
    Insert,
    Delete,
    PageUp,
    PageDown,
    CtrlUp,
    CtrlDown,
    CtrlLeft,
    CtrlRight,
    ShiftUp,
    ShiftDown,
    ShiftLeft,
    ShiftRight,
    AltUp,
    AltDown,
    AltLeft,
    AltRight,
    AltHome,
    AltEnd,
    AltPageUp,
    AltPageDown,
    AltShiftUp,
    AltShiftDown,
    AltShiftLeft,
    AltShiftRight,
    F(u8),
    CtrlAlt(char),
    AltEnter,
    AltBackspace,
    AltTab,
    Alt(char),
    Char(char),
    BracketedPasteStart,
    BracketedPasteEnd,
}

} // verus!
