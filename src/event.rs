use vstd::prelude::*;

use crate::key::Key;

verus! {

/// What the runtime hands to the model: the start signal, the stop signal, a key,
/// or a payload of the application's own.
#[derive(Debug, Clone)]
pub enum Event<CustomEvent> {
    Init,
    Quit,
    Keyboard(Key),
    Custom(CustomEvent),
}

} // verus!
