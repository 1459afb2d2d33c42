//! A terminal-UI runtime: decoding of the terminal's input bytes into keys, the frame
//! buffer that redraws only the screen region it used, the raw-mode session, the
//! cursor-position reply, the event loop's state machine, and ANSI text styling.
use vstd::prelude::*;

pub mod color;
pub mod cursor;
pub mod error;
pub mod event;
pub mod input;
pub mod key;
pub mod model;
pub mod output;
pub mod raw;
pub mod runtime;

verus! {

} // verus!
