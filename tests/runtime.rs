use std::collections::VecDeque;
use std::time::{Duration, Instant};

use termix::event::Event;
use termix::key::Key;
use termix::model::ModelAct;
use termix::runtime::{RunState, Runtime, Step};

#[derive(Debug, Clone, PartialEq)]
struct Tick;

type Cmd = fn() -> Event<Tick>;

fn tick() -> Event<Tick> {
    let start = Instant::now();
    while start.elapsed() < Duration::from_millis(5) {}
    Event::Custom(Tick)
}

#[derive(Debug, Clone, PartialEq)]
struct Counter(usize);

impl ModelAct<Tick, Cmd> for Counter {
    fn update(&self, event: &Event<Tick>) -> (Option<Counter>, Option<Cmd>) {
        match event {
            Event::Init => (Some(Counter(self.0)), Some(tick as Cmd)),
            Event::Custom(_) => (Some(Counter(self.0 + 1)), None),
            Event::Keyboard(Key::Char('t')) => (None, Some(tick as Cmd)),
            Event::Keyboard(_) => (Some(Counter(self.0 + 10)), None),
            Event::Quit => (None, None),
        }
    }

    fn view(&self) -> String {
        format!("count {}\n", self.0)
    }
}

fn replay(events: &[Event<Tick>]) -> Vec<String> {
    let mut rt = Runtime::new(Counter(0));
    assert!(rt.start());
    let steps = rt.handle_all::<Tick, Cmd>(events);
    assert_eq!(steps.len(), events.len());
    let mut frames = Vec::new();
    for step in steps {
        if let Step::Updated(Some(frame), _) = step {
            frames.push(frame);
        }
    }
    frames
}

#[test]
fn replay_is_deterministic() {
    let events = vec![
        Event::Init,
        Event::Keyboard(Key::Char('x')),
        Event::Custom(Tick),
        Event::Keyboard(Key::Char('t')),
        Event::Custom(Tick),
    ];
    let first = replay(&events);
    let second = replay(&events);
    assert_eq!(first, second);
    assert_eq!(first, vec!["count 0\n", "count 10\n", "count 11\n", "count 12\n"]);
    let mut with_quit = events.clone();
    with_quit.insert(2, Event::Quit);
    assert_eq!(replay(&with_quit), vec!["count 0\n", "count 10\n"]);
}

#[test]
fn init_command_yields_one_tick() {
    let mut rt = Runtime::new(Counter(0));
    assert!(rt.start());
    assert!(!rt.start());
    let mut mailbox: VecDeque<Event<Tick>> = VecDeque::new();
    mailbox.push_back(Event::Init);
    let ev = mailbox.pop_front().unwrap();
    let cmd = match rt.handle::<Tick, Cmd>(&ev) {
        Step::Updated(Some(frame), Some(cmd)) => {
            assert_eq!(frame, "count 0\n");
            cmd
        }
        _ => panic!("Init must give a frame and a command"),
    };
    assert!(mailbox.is_empty());
    mailbox.push_back(cmd());
    assert_eq!(mailbox.len(), 1);
    assert!(matches!(mailbox[0], Event::Custom(Tick)));
}

#[test]
fn quit_drops_pending_results() {
    let mut rt = Runtime::new(Counter(0));
    rt.start();
    let mut pending: Vec<Cmd> = Vec::new();
    for ev in [Event::Init, Event::Keyboard(Key::Char('t'))] {
        if let Step::Updated(_, Some(cmd)) = rt.handle::<Tick, Cmd>(&ev) {
            pending.push(cmd);
        }
    }
    assert_eq!(pending.len(), 2);
    assert!(matches!(rt.handle::<Tick, Cmd>(&Event::Quit), Step::Stop));
    assert_eq!(rt.state(), RunState::Terminated);
    let late: Vec<Event<Tick>> = pending.iter().map(|cmd| cmd()).collect();
    assert_eq!(late.len(), 2);
    for ev in &late {
        assert!(matches!(ev, Event::Custom(Tick)));
        assert!(matches!(rt.handle::<Tick, Cmd>(ev), Step::Ignored));
    }
    assert_eq!(*rt.model(), Counter(0));
    assert_eq!(rt.state(), RunState::Terminated);
}

#[test]
fn events_before_start_are_dropped() {
    let mut rt = Runtime::new(Counter(3));
    assert!(matches!(rt.handle::<Tick, Cmd>(&Event::Init), Step::Ignored));
    assert!(matches!(rt.handle::<Tick, Cmd>(&Event::Quit), Step::Ignored));
    assert_eq!(rt.state(), RunState::Starting);
    rt.start();
    assert!(matches!(rt.handle::<Tick, Cmd>(&Event::Keyboard(Key::Up)), Step::Updated(Some(_), None)));
    assert_eq!(*rt.model(), Counter(13));
}
