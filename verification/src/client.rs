//! How a client gets to a daemon: it tries the socket, starts a daemon when
//! nothing answers, and tries again until it does or too much time has passed.

use vstd::prelude::*;

use crate::time::{Duration, Instant};

verus! {

/// How many seconds a daemon that was started has to answer.
pub const SPAWN_WAIT_SECS: u64 = 3;

/// How long to wait between two tries, in nanoseconds.
pub const RETRY_NANOS: u32 = 20_000_000;

/// A way to a daemon that runs. Every request goes over a connection of its own:
/// the daemon reads a request line and answers with a response line, so there is no
/// session state to get out of sync.
#[derive(Debug, PartialEq, Eq)]
pub struct Client {
    /// The bytes of the path of the daemon's socket.
    pub socket: Vec<u8>,
}

impl Client {
    /// Talks to a daemon that is already running, or `None` if there isn't one:
    /// `answered` is whether its socket could be connected to.
    pub fn connect(socket: Vec<u8>, answered: bool) -> (r: Option<Client>)
        ensures
            r == if answered {
                Some(Client { socket })
            } else {
                None
            },
    {
        if answered {
            Some(Client { socket })
        } else {
            None
        }
    }

    /// Like `connect`, but starts a daemon first when nothing answers. What is to
    /// be done for it is told step by step, and may come to nothing, so callers can
    /// fall back to `op`.
    pub fn connect_or_spawn() -> (r: (Connecting, Action))
        ensures
            r.0 is Trying,
            r.1 is Try,
    {
        (Connecting::Trying, Action::Try)
    }
}

/// What has happened.
#[derive(Clone, Copy, Debug, PartialEq, Eq, Structural)]
pub enum Event {
    /// Whether the socket answered.
    Tried(bool),
    /// The daemon could be started, and the time once it was.
    Started(Instant),
    NotStarted,
    /// The time after the wait.
    Waited(Instant),
}

/// What to do next.
#[derive(Clone, Copy, Debug, PartialEq, Eq, Structural)]
pub enum Action {
    /// Connect to the socket.
    Try,
    /// Start a daemon.
    Start,
    /// Let this much time pass.
    Wait(Duration),
    /// The daemon answers.
    Connected,
    /// Do without a daemon.
    GiveUp,
}

/// How far the client has come.
#[derive(Clone, Copy, Debug, PartialEq, Eq, Structural)]
pub enum Connecting {
    /// The socket is tried for the first time.
    Trying,
    /// A daemon is being started.
    Starting,
    /// A daemon was started, and has until then to answer.
    Waiting(Instant),
    Retrying(Instant),
    Over,
}

/// The time until which a daemon that was started has to answer.
pub open spec fn deadline(started: Instant) -> int {
    started.nanos + SPAWN_WAIT_SECS * 1_000_000_000
}

impl Connecting {
    /// The event is one that is waited for, and the clock can count the time that
    /// a daemon is given.
    pub open spec fn awaits(self, event: Event) -> bool {
        match self {
            Connecting::Trying => event is Tried,
            Connecting::Starting => event is NotStarted || (event is Started && deadline(
                event->Started_0,
            ) <= u128::MAX),
            Connecting::Waiting(_) => event is Waited,
            Connecting::Retrying(_) => event is Tried,
            Connecting::Over => false,
        }
    }

    /// What comes of an event.
    pub open spec fn moves(self, event: Event, next: Connecting, action: Action) -> bool {
        match (self, event) {
            (Connecting::Trying, Event::Tried(answered)) => if answered {
                next is Over && action is Connected
            } else {
                next is Starting && action is Start
            },
            (Connecting::Starting, Event::NotStarted) => next is Over && action is GiveUp,
            (Connecting::Starting, Event::Started(started)) => {
                &&& next matches Connecting::Waiting(until)
                &&& until.nanos == deadline(started)
                &&& action == Action::Wait(Duration { secs: 0, nanos: 0 })
            },
            (Connecting::Waiting(until), Event::Waited(now)) => if now.nanos < until.nanos {
                next == Connecting::Retrying(until) && action is Try
            } else {
                next is Over && action is GiveUp
            },
            (Connecting::Retrying(until), Event::Tried(answered)) => if answered {
                next is Over && action is Connected
            } else {
                next == Connecting::Waiting(until) && action == Action::Wait(
                    Duration { secs: 0, nanos: RETRY_NANOS },
                )
            },
            _ => false,
        }
    }

    /// Takes an event, and tells what to do next.
    pub fn step(self, event: Event) -> (r: (Connecting, Action))
        requires
            self.awaits(event),
        ensures
            self.moves(event, r.0, r.1),
    {
        match (self, event) {
            (Connecting::Trying, Event::Tried(false)) => (Connecting::Starting, Action::Start),
            (Connecting::Starting, Event::Started(started)) => {
                match started.checked_add(Duration::from_secs(SPAWN_WAIT_SECS)) {
                    Some(until) => (
                        Connecting::Waiting(until),
                        Action::Wait(Duration::from_secs(0)),
                    ),
                    None => (Connecting::Over, Action::GiveUp),
                }
            },
            (Connecting::Waiting(until), Event::Waited(now)) => {
                if now.nanos < until.nanos {
                    (Connecting::Retrying(until), Action::Try)
                } else {
                    (Connecting::Over, Action::GiveUp)
                }
            },
            (Connecting::Retrying(until), Event::Tried(false)) => (
                Connecting::Waiting(until),
                Action::Wait(Duration { secs: 0, nanos: RETRY_NANOS }),
            ),
            (_, Event::Tried(_)) => (Connecting::Over, Action::Connected),
            _ => (Connecting::Over, Action::GiveUp),
        }
    }
}

/// A number of events, one after the other, take the client from one place to
/// another.
pub open spec fn goes(from: Connecting, events: Seq<Event>, to: Connecting) -> bool
    decreases events.len(),
{
    if events.len() == 0 {
        from == to
    } else {
        exists|mid: Connecting, action: Action|
            goes(from, events.drop_last(), mid) && #[trigger] mid.moves(events.last(), to, action)
    }
}

/// A daemon that answers is used, whenever it does.
pub proof fn an_answer_connects(at: Connecting, next: Connecting, action: Action)
    requires
        at.moves(Event::Tried(true), next, action),
    ensures
        action is Connected,
        next is Over,
{
}

/// No more than one daemon is started: only the first try can lead to that, and
/// nothing leads back to it.
pub proof fn one_daemon_is_started_at_most(
    at: Connecting,
    event: Event,
    next: Connecting,
    action: Action,
    events: Seq<Event>,
    later: Connecting,
    event2: Event,
    next2: Connecting,
    action2: Action,
)
    requires
        at.moves(event, next, action),
        action is Start,
        goes(next, events, later),
        later.moves(event2, next2, action2),
    ensures
        action2 !is Start,
{
    never_first_again(next, events, later);
}

proof fn never_first_again(from: Connecting, events: Seq<Event>, to: Connecting)
    requires
        from !is Trying,
        goes(from, events, to),
    ensures
        to !is Trying,
    decreases events.len(),
{
    if events.len() > 0 {
        let (mid, action) = choose|mid: Connecting, action: Action|
            goes(from, events.drop_last(), mid) && #[trigger] mid.moves(events.last(), to, action);
        never_first_again(from, events.drop_last(), mid);
    }
}

proof fn the_deadline_stays(from: Connecting, until: Instant, events: Seq<Event>, to: Connecting)
    requires
        from == Connecting::Waiting(until),
        goes(from, events, to),
    ensures
        to == Connecting::Waiting(until) || to == Connecting::Retrying(until) || to is Over,
    decreases events.len(),
{
    if events.len() > 0 {
        let (mid, action) = choose|mid: Connecting, action: Action|
            goes(from, events.drop_last(), mid) && #[trigger] mid.moves(events.last(), to, action);
        the_deadline_stays(from, until, events.drop_last(), mid);
    }
}

/// A daemon that was started is not given up before it has had its time.
pub proof fn a_started_daemon_has_its_time(
    started: Instant,
    waiting: Connecting,
    wait: Action,
    events: Seq<Event>,
    at: Connecting,
    event: Event,
    next: Connecting,
    action: Action,
)
    requires
        Connecting::Starting.moves(Event::Started(started), waiting, wait),
        goes(waiting, events, at),
        at.moves(event, next, action),
        action is GiveUp,
    ensures
        event is Waited,
        event->Waited_0.nanos >= started.nanos + 3_000_000_000,
{
    the_deadline_stays(waiting, waiting->Waiting_0, events, at);
}

/// A daemon that was started is tried again until three seconds are over, twenty
/// milliseconds after each try that failed, and given up at the first look at the
/// clock from then on.
pub proof fn a_started_daemon_is_tried_for_three_seconds(
    started: Instant,
    waiting: Connecting,
    wait: Action,
    now: Instant,
    next: Connecting,
    action: Action,
    again: Connecting,
    pause: Action,
)
    requires
        Connecting::Starting.moves(Event::Started(started), waiting, wait),
        waiting.moves(Event::Waited(now), next, action),
        next.moves(Event::Tried(false), again, pause),
    ensures
        now.nanos < started.nanos + 3_000_000_000,
        action is Try,
        again == waiting,
        pause == Action::Wait(Duration { secs: 0, nanos: 20_000_000 }),
{
}

/// The clock alone decides whether there is another try.
pub proof fn the_clock_decides(
    started: Instant,
    waiting: Connecting,
    wait: Action,
    now: Instant,
    next: Connecting,
    action: Action,
)
    requires
        Connecting::Starting.moves(Event::Started(started), waiting, wait),
        waiting.moves(Event::Waited(now), next, action),
    ensures
        now.nanos < started.nanos + 3_000_000_000 ==> action is Try,
        now.nanos >= started.nanos + 3_000_000_000 ==> action is GiveUp,
{
}

/// A daemon is started where the first try fails; where that fails too, there is
/// none.
pub proof fn a_daemon_is_started_where_none_answers(next: Connecting, action: Action, end: Connecting, last: Action)
    requires
        Connecting::Trying.moves(Event::Tried(false), next, action),
        next.moves(Event::NotStarted, end, last),
    ensures
        action is Start,
        last is GiveUp,
{
}

/// The outcome of each step is waited for, whatever it is, as long as the clock can
/// count three seconds more.
pub proof fn every_outcome_is_waited_for(connecting: Connecting, event: Event)
    ensures
        connecting is Trying || connecting is Retrying ==> (connecting.awaits(event) <==> event is Tried),
        connecting is Waiting ==> (connecting.awaits(event) <==> event is Waited),
        connecting is Starting && event is NotStarted ==> connecting.awaits(event),
        connecting is Starting && event is Started && event->Started_0.nanos + 3_000_000_000
            <= u128::MAX ==> connecting.awaits(event),
{
}

/// Each step leads to the next, and the time that a daemon has stays what it was.
pub proof fn each_step_leads_to_the_next(
    connecting: Connecting,
    event: Event,
    next: Connecting,
    action: Action,
)
    requires
        connecting.moves(event, next, action),
    ensures
        connecting is Trying && event == Event::Tried(false) ==> next is Starting && action is Start,
        connecting is Starting && event is NotStarted ==> next is Over && action is GiveUp,
        connecting is Starting && event is Started ==> next is Waiting && next->Waiting_0.nanos
            == event->Started_0.nanos + 3_000_000_000 && action == Action::Wait(
            Duration { secs: 0, nanos: 0 },
        ),
        connecting is Waiting && event is Waited && event->Waited_0.nanos < connecting->Waiting_0.nanos
            ==> next == Connecting::Retrying(connecting->Waiting_0) && action is Try,
        connecting is Waiting && event is Waited && event->Waited_0.nanos
            >= connecting->Waiting_0.nanos ==> next is Over && action is GiveUp,
        connecting is Retrying && event == Event::Tried(false) ==> next == Connecting::Waiting(
            connecting->Retrying_0,
        ) && action == Action::Wait(Duration { secs: 0, nanos: 20_000_000 }),
        event == Event::Tried(true) ==> next is Over && action is Connected,
{
}

} // verus!
