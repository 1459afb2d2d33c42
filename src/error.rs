use vstd::prelude::*;

verus! {

/// The failures the runtime reports.
#[derive(Debug, Clone)]
pub enum TermixError {
    /// A write to the terminal failed; the text says what was being written.
    Write(String),
    /// The terminal never answered the cursor-position request.
    CursorDetection,
    /// Waiting for input on the terminal failed.
    KeyListener,
    /// An input byte that no known sequence continues with, or the last byte before
    /// the input went silent in the middle of a sequence. Local to one decode.
    KeyRead(u8),
    /// Raw mode was requested on a handle that is not a terminal.
    NotATerminal,
}

impl TermixError {
    /// Whether the key listener has to stop after this error: only when waiting on the
    /// terminal failed. A decode error is local to one key.
    pub fn ends_key_listener(&self) -> (r: bool)
        ensures
            r == (*self is KeyListener),
    {
        match self {
            TermixError::KeyListener => true,
            _ => false,
        }
    }
}

} // verus!
