use vstd::prelude::*;

use crate::event::Event;
use crate::model::ModelAct;

verus! {

/// Where the event loop stands.
#[derive(Debug, Clone, Copy, PartialEq, Eq, Structural)]
pub enum RunState {
    Starting,
    Running,
    Terminated,
}

/// What the event loop is to do after an event.
pub enum Step<Cmd> {
    /// `Quit` arrived: tear the terminal down and read no more events.
    Stop,
    /// The event arrived while the loop was not running, and is dropped.
    Ignored,
    /// The model took the event: the frame to render when the model was replaced,
    /// and the command to run in the background, if any.
    Updated(Option<String>, Option<Cmd>),
}

/// The model after `update` on an event: the one it returned, or the same one.
pub open spec fn installed<M: ModelAct<E, C>, E, C>(m: M, event: Event<E>) -> M {
    match m.update_spec(event).0 {
        Some(n) => n,
        None => m,
    }
}

/// One step of `frames_of`: the frames of an event followed by the rest.
proof fn lemma_frames_of_unfold<M: ModelAct<E, C>, E, C>(
    m: M,
    s: RunState,
    events: Seq<Event<E>>,
    i: int,
)
    requires
        0 <= i < events.len(),
    ensures
        frames_of::<M, E, C>(m, s, events.skip(i)) == if s == RunState::Running && !(
        events[i] is Quit) {
            (if m.update_spec(events[i]).0 is Some {
                seq![installed(m, events[i]).view_spec()]
            } else {
                Seq::empty()
            }) + frames_of::<M, E, C>(installed(m, events[i]), s, events.skip(i + 1))
        } else {
            frames_of::<M, E, C>(m, next_state(s, events[i]), events.skip(i + 1))
        },
{
    assert(events.skip(i)[0] == events[i]);
    assert(events.skip(i).skip(1) == events.skip(i + 1));
}

/// The step hands on what `update` gave for the event: its command, and a frame exactly
/// when it returned a model, that frame being the view of the model now installed.
pub open spec fn follows_update<M: ModelAct<E, C>, E, C>(
    m: M,
    event: Event<E>,
    now: M,
    r: Step<C>,
) -> bool {
    match r {
        Step::Updated(frame, cmd) => {
            &&& cmd == m.update_spec(event).1
            &&& (frame is Some <==> m.update_spec(event).0 is Some)
            &&& match frame {
                Some(t) => t@ == now.view_spec(),
                None => true,
            }
        },
        _ => false,
    }
}

/// The state after one event.
pub open spec fn next_state<E>(s: RunState, event: Event<E>) -> RunState {
    if s == RunState::Running && event is Quit {
        RunState::Terminated
    } else {
        s
    }
}

/// The state after a run of events, taken in order.
pub open spec fn state_after<E>(s: RunState, events: Seq<Event<E>>) -> RunState
    decreases events.len(),
{
    if events.len() == 0 {
        s
    } else {
        state_after(next_state(s, events[0]), events.skip(1))
    }
}

/// The event loop's own state: the current model, and where the loop stands.
/// Only this loop replaces the model, one event at a time.
pub struct Runtime<M> {
    model: M,
    state: RunState,
}

impl<M> Runtime<M> {
    pub closed spec fn model_spec(&self) -> M {
        self.model
    }

    pub closed spec fn state_spec(&self) -> RunState {
        self.state
    }

    pub fn new(model: M) -> (r: Runtime<M>)
        ensures
            r.model_spec() == model,
            r.state_spec() == RunState::Starting,
    {
        Runtime { model, state: RunState::Starting }
    }

    pub fn state(&self) -> (r: RunState)
        ensures
            r == self.state_spec(),
    {
        self.state
    }

    pub fn model(&self) -> (r: &M)
        ensures
            *r == self.model_spec(),
    {
        &self.model
    }

    /// Enters the running state. Returns `true` exactly once, on the first call: that is
    /// when the single `Init` event is to be sent.
    pub fn start(&mut self) -> (r: bool)
        ensures
            r == (old(self).state_spec() == RunState::Starting),
            final(self).state_spec() == if r {
                RunState::Running
            } else {
                old(self).state_spec()
            },
            final(self).model_spec() == old(self).model_spec(),
    {
        if self.state == RunState::Starting {
            self.state = RunState::Running;
            true
        } else {
            false
        }
    }

    /// Handles a run of events in order, one `handle` step each, and returns the steps.
    /// The frames among them are exactly `frames_of` the run: replaying the same events
    /// from equal runtimes renders the same frames.
    pub fn handle_all<E, C>(&mut self, events: &[Event<E>]) -> (r: Vec<Step<C>>) where
        M: ModelAct<E, C>,
        ensures
            r@.len() == events@.len(),
            frames_in(r@) == frames_of::<M, E, C>(
                old(self).model_spec(),
                old(self).state_spec(),
                events@,
            ),
            final(self).state_spec() == state_after(old(self).state_spec(), events@),
    {
        let mut steps: Vec<Step<C>> = Vec::new();
        let mut i: usize = 0;
        assert(events@.skip(0) == events@);
        while i < events.len()
            invariant
                i <= events@.len(),
                steps@.len() == i,
                frames_in(steps@) + frames_of::<M, E, C>(
                    self.model_spec(),
                    self.state_spec(),
                    events@.skip(i as int),
                ) == frames_of::<M, E, C>(
                    old(self).model_spec(),
                    old(self).state_spec(),
                    events@,
                ),
                state_after(self.state_spec(), events@.skip(i as int)) == state_after(
                    old(self).state_spec(),
                    events@,
                ),
            decreases events@.len() - i,
        {
            let ghost m0 = self.model_spec();
            let ghost s0 = self.state_spec();
            proof {
                lemma_frames_of_unfold::<M, E, C>(m0, s0, events@, i as int);
                assert(events@.skip(i as int)[0] == events@[i as int]);
                assert(events@.skip(i as int).skip(1) == events@.skip(i + 1));
            }
            let ghost prev = steps@;
            let step = self.handle(&events[i]);
            steps.push(step);
            let ghost here: Seq<Seq<char>> = match steps@.last() {
                Step::Updated(Some(t), _) => seq![t@],
                _ => Seq::empty(),
            };
            proof {
                assert(steps@.drop_last() == prev);
                assert(frames_in(steps@) == frames_in(prev) + here);
                let rest = frames_of::<M, E, C>(
                    self.model_spec(),
                    self.state_spec(),
                    events@.skip(i + 1),
                );
                assert(frames_of::<M, E, C>(m0, s0, events@.skip(i as int)) == here + rest);
                assert(frames_in(prev) + (here + rest) == frames_in(prev) + here + rest);
            }
            i = i + 1;
        }
        assert(events@.skip(i as int) == Seq::<Event<E>>::empty());
        steps
    }

    /// Handles one event taken from the mailbox.
    pub fn handle<E, C>(&mut self, event: &Event<E>) -> (r: Step<C>) where M: ModelAct<E, C>
        ensures
            final(self).state_spec() == next_state(old(self).state_spec(), *event),
            old(self).state_spec() != RunState::Running ==> r is Ignored,
            old(self).state_spec() != RunState::Running ==> final(self).model_spec()
                == old(self).model_spec(),
            old(self).state_spec() == RunState::Running && event is Quit ==> r is Stop,
            event is Quit ==> final(self).model_spec() == old(self).model_spec(),
            old(self).state_spec() == RunState::Running && !(event is Quit)
                ==> final(self).model_spec() == installed(old(self).model_spec(), *event),
            old(self).state_spec() == RunState::Running && !(event is Quit) ==> follows_update(
                old(self).model_spec(),
                *event,
                final(self).model_spec(),
                r,
            ),
    {
        if self.state != RunState::Running {
            return Step::Ignored;
        }
        if let Event::Quit = event {
            self.state = RunState::Terminated;
            return Step::Stop;
        }
        let (next, cmd) = self.model.update(event);
        match next {
            Some(m) => {
                self.model = m;
                let frame = self.model.view();
                Step::Updated(Some(frame), cmd)
            },
            None => Step::Updated(None, cmd),
        }
    }
}

/// The frames a run of events renders, in order, from model `m` in state `s`: one for
/// each event that the model answers with a new model, that model's view.
pub open spec fn frames_of<M: ModelAct<E, C>, E, C>(
    m: M,
    s: RunState,
    events: Seq<Event<E>>,
) -> Seq<Seq<char>>
    decreases events.len(),
{
    if events.len() == 0 {
        Seq::empty()
    } else {
        let ev = events[0];
        if s == RunState::Running && !(ev is Quit) {
            let n = installed(m, ev);
            (if m.update_spec(ev).0 is Some {
                seq![n.view_spec()]
            } else {
                Seq::empty()
            }) + frames_of::<M, E, C>(n, s, events.skip(1))
        } else {
            frames_of::<M, E, C>(m, next_state(s, ev), events.skip(1))
        }
    }
}

/// The frames among a run of steps, in order.
pub open spec fn frames_in<C>(steps: Seq<Step<C>>) -> Seq<Seq<char>>
    decreases steps.len(),
{
    if steps.len() == 0 {
        Seq::empty()
    } else {
        frames_in(steps.drop_last()) + match steps.last() {
            Step::Updated(Some(t), _) => seq![t@],
            _ => Seq::empty(),
        }
    }
}

/// Two runs that start from equal models in the same state and handle the same events
/// render the same frames, in the same order.
pub proof fn lemma_replay_deterministic<M: ModelAct<E, C>, E, C>(
    m1: M,
    m2: M,
    s: RunState,
    events: Seq<Event<E>>,
)
    requires
        m1 == m2,
    ensures
        frames_of::<M, E, C>(m1, s, events) == frames_of::<M, E, C>(m2, s, events),
{
}

/// One handled event renders the first of the run's frames (if any) and leaves the
/// runtime where the rest of the run continues.
pub proof fn lemma_replay_step<M: ModelAct<E, C>, E, C>(
    m: M,
    s: RunState,
    ev: Event<E>,
    rest: Seq<Event<E>>,
)
    requires
        s == RunState::Running,
        !(ev is Quit),
    ensures
        frames_of::<M, E, C>(m, s, seq![ev] + rest) == (if m.update_spec(ev).0 is Some {
            seq![installed(m, ev).view_spec()]
        } else {
            Seq::empty()
        }) + frames_of::<M, E, C>(installed(m, ev), next_state(s, ev), rest),
{
    assert((seq![ev] + rest).skip(1) == rest);
    assert((seq![ev] + rest)[0] == ev);
}

/// After `Quit` has been handled, no later event reaches the model: the loop stays
/// terminated whatever arrives, so every later event is dropped.
pub proof fn lemma_quit_is_final<E>(events: Seq<Event<E>>)
    ensures
        state_after(RunState::Running, seq![Event::<E>::Quit] + events) == RunState::Terminated,
        state_after(RunState::Terminated, events) == RunState::Terminated,
{
    lemma_terminated_stays(events);
    assert((seq![Event::<E>::Quit] + events).skip(1) == events);
}

proof fn lemma_terminated_stays<E>(events: Seq<Event<E>>)
    ensures
        state_after(RunState::Terminated, events) == RunState::Terminated,
    decreases events.len(),
{
    if events.len() > 0 {
        lemma_terminated_stays(events.skip(1));
    }
}

} // verus!
