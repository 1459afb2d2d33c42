use vstd::prelude::*;

use crate::event::Event;

verus! {

/// What an application implements to be driven by the runtime: how an event changes
/// the state, and how the state looks on screen.
///
/// The two spec functions say what `update` and `view` return. An implementation that
/// Verus checks states them; their defaults say nothing of any value, so only an
/// implementation that Verus does not check can leave them out.
pub trait ModelAct<CustomEvent, Cmd>: Sized {
    /// What `update` gives for an event.
    closed spec fn update_spec(&self, event: Event<CustomEvent>) -> (Option<Self>, Option<Cmd>) {
        arbitrary()
    }

    /// What `view` gives.
    closed spec fn view_spec(&self) -> Seq<char> {
        arbitrary()
    }

    /// The state to show next, if it changes, and a command to run in the background,
    /// if any; the command's result comes back as an event.
    fn update(&self, event: &Event<CustomEvent>) -> (r: (Option<Self>, Option<Cmd>))
        ensures
            r == self.update_spec(*event),
    ;

    /// The text of the screen for this state.
    fn view(&self) -> (r: String)
        ensures
            r@ == self.view_spec(),
    ;
}

} // verus!
