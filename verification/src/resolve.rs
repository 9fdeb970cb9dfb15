//! The read-through path: a secret comes from the daemon, otherwise from `op`, and
//! the daemon is told what `op` said. With no daemon it is just `op read`.

use vstd::prelude::*;

use crate::cache::Contents;
use crate::cli;
use crate::config::Config;
use crate::daemon;
use crate::daemon::Process;
use crate::op;
use crate::protocol::{Request, Response};
use crate::text;
use crate::time::Duration;
use crate::time::Instant;

verus! {

/// What has happened.
#[derive(Debug)]
pub enum Event {
    /// What the daemon said to a request, or nothing where it could not be asked.
    Replied(Option<Response>),
    /// How `op` ended, and what it wrote.
    Finished { success: bool, code: Option<i32>, stdout: Vec<u8> },
}

/// What to do next.
#[derive(Debug, PartialEq, Eq)]
pub enum Action {
    /// Send this to the daemon.
    Send(Request),
    /// Run `op read` with the arguments.
    RunOp,
    /// Hand out the secret.
    Answer(Vec<u8>),
    /// Exit with this code.
    Exit(i32),
}

/// How far it has come.
#[derive(Debug)]
pub enum Stage {
    /// The daemon was asked for the secret.
    Asking,
    /// `op` was asked for it.
    Reading,
    /// The daemon was told this secret.
    Storing(Vec<u8>),
    Over,
}

/// One secret on its way.
#[derive(Debug)]
pub struct Resolve {
    pub key: String,
    pub ttl_secs: Option<u64>,
    /// Whether there is a daemon to talk to.
    pub connected: bool,
    pub stage: Stage,
}

/// The whole seconds of a lifetime.
pub open spec fn in_secs(ttl: Option<Duration>) -> Option<u64> {
    match ttl {
        Some(d) => Some(d.secs),
        None => None,
    }
}

/// The request asks for what is held under a key.
pub open spec fn asks(request: Request, key: Seq<char>) -> bool {
    request matches Request::Get { key: k } && k@ == key
}

/// The request stores a secret under a key, for so many seconds.
pub open spec fn stores(
    request: Request,
    key: Seq<char>,
    value: Seq<u8>,
    ttl_secs: Option<u64>,
) -> bool {
    request matches Request::Put { key: k, value: v, ttl_secs: t } && k@ == key && v@ == value && t
        == ttl_secs
}

impl Resolve {
    /// How it begins: the daemon is asked if there is one, `op` otherwise.
    pub open spec fn begins(
        self,
        action: Action,
        args: Seq<Seq<char>>,
        ttl: Option<Duration>,
        connected: bool,
    ) -> bool {
        &&& self.key@ == cli::key_of(args)
        &&& self.ttl_secs == in_secs(ttl)
        &&& self.connected == connected
        &&& if connected {
            self.stage is Asking && action is Send && asks(action->Send_0, cli::key_of(args))
        } else {
            self.stage is Reading && action is RunOp
        }
    }

    /// The event is one that is waited for.
    pub open spec fn awaits(self, event: Event) -> bool {
        match self.stage {
            Stage::Asking => event is Replied,
            Stage::Reading => event is Finished,
            Stage::Storing(_) => event is Replied,
            Stage::Over => false,
        }
    }

    /// What comes of an event. A hit is the answer; anything else from the daemon
    /// sends `op` for it. What `op` wrote is stored if there is a daemon, and then
    /// is the answer, whether it could be stored or not. Where `op` failed nothing
    /// is stored, and its code is passed on.
    pub open spec fn moves(self, event: Event, next: Resolve, action: Action) -> bool {
        &&& next == (Resolve { stage: next.stage, ..self })
        &&& match (self.stage, event) {
            (Stage::Asking, Event::Replied(Some(Response::Hit { value }))) => next.stage is Over
                && action == Action::Answer(value),
            (Stage::Asking, Event::Replied(_)) => next.stage is Reading && action is RunOp,
            (Stage::Reading, Event::Finished { success, code, stdout }) => if !success {
                next.stage is Over && action == Action::Exit(op::passed_on(code))
            } else if self.connected {
                next.stage == Stage::Storing(stdout) && action is Send && stores(
                    action->Send_0,
                    self.key@,
                    stdout@,
                    self.ttl_secs,
                )
            } else {
                next.stage is Over && action == Action::Answer(stdout)
            },
            (Stage::Storing(value), Event::Replied(_)) => next.stage is Over && action is Answer
                && action->Answer_0@ == value@,
            _ => false,
        }
    }

    /// Begins to resolve what `read` was given.
    pub fn start(config: &Config, args: &[String], connected: bool) -> (r: (Resolve, Action))
        ensures
            r.0.begins(r.1, text::views(args@), config.chosen_ttl(args@), connected),
            r.0.key@ == text::joined(text::views(args@), "\u{1f}"@),
            config.chosen_ttl(args@) is None <==> r.0.ttl_secs is None,
            config.chosen_ttl(args@) matches Some(d) ==> d.nanos < 1_000_000_000
                ==> r.0.ttl_secs == Some(((d.secs * 1_000_000_000 + d.nanos) / 1_000_000_000) as u64),
    {
        let key = cli::cache_key(args);
        let ttl_secs = match config.ttl_for(args) {
            Some(d) => Some(d.as_secs()),
            None => None,
        };
        if connected {
            let request = Request::Get { key: key.clone() };
            (Resolve { key, ttl_secs, connected, stage: Stage::Asking }, Action::Send(request))
        } else {
            (Resolve { key, ttl_secs, connected, stage: Stage::Reading }, Action::RunOp)
        }
    }

    /// Takes an event, and tells what to do next.
    pub fn step(&mut self, event: Event) -> (action: Action)
        requires
            old(self).awaits(event),
        ensures
            old(self).moves(event, *final(self), action),
    {
        match event {
            Event::Finished { success, code, stdout } => {
                if !success {
                    self.stage = Stage::Over;
                    return Action::Exit(op::exit_code(code));
                }
                if !self.connected {
                    self.stage = Stage::Over;
                    return Action::Answer(stdout);
                }
                let value = vstd::slice::slice_to_vec(stdout.as_slice());
                self.stage = Stage::Storing(stdout);
                Action::Send(
                    Request::Put { key: self.key.clone(), value, ttl_secs: self.ttl_secs },
                )
            },
            Event::Replied(response) => {
                if let Stage::Storing(value) = &self.stage {
                    let value = vstd::slice::slice_to_vec(value.as_slice());
                    self.stage = Stage::Over;
                    return Action::Answer(value);
                }
                match response {
                    Some(Response::Hit { value }) => {
                        self.stage = Stage::Over;
                        Action::Answer(value)
                    },
                    _ => {
                        self.stage = Stage::Reading;
                        Action::RunOp
                    },
                }
            },
        }
    }
}

/// A secret that the daemon still holds is never asked of `op` again.
pub proof fn hit_needs_no_op(asking: Resolve, value: Vec<u8>, next: Resolve, action: Action)
    requires
        asking.stage is Asking,
        asking.moves(Event::Replied(Some(Response::Hit { value })), next, action),
    ensures
        action == Action::Answer(value),
        next.stage is Over,
{
}

/// A read that failed is not stored: nothing more is sent, and `op`'s own code is
/// passed on.
pub proof fn failed_reads_are_not_stored(
    reading: Resolve,
    code: Option<i32>,
    stdout: Vec<u8>,
    next: Resolve,
    action: Action,
)
    requires
        reading.stage is Reading,
        reading.moves(Event::Finished { success: false, code, stdout }, next, action),
    ensures
        action == Action::Exit(op::passed_on(code)),
        next.stage is Over,
{
}

/// What `op` once wrote for some arguments is the answer to the same arguments
/// from then on without `op` being run, until its lifetime is over; then `op` is
/// run again. In between anything may be asked of the daemon, except to clear or
/// to store another secret under the same key.
pub proof fn read_runs_op_once_until_it_lapses(
    args: Seq<Seq<char>>,
    first: Resolve,
    wrote: Event,
    storing: Resolve,
    put: Action,
    m: Contents,
    stored: Instant,
    between: Seq<(Request, Instant)>,
    second: Resolve,
    get: Action,
    later_ttl: Option<Duration>,
    now: Instant,
    reply: Response,
    process: Process,
    last: Resolve,
    action: Action,
)
    requires
        first.key@ == cli::key_of(args),
        first.connected,
        first.stage is Reading,
        wrote is Finished,
        wrote->success,
        first.moves(wrote, storing, put),
        forall|i: int|
            0 <= i < between.len() ==> daemon::leaves_alone(
                (#[trigger] between[i]).0,
                cli::key_of(args),
            ) && between[i].1.nanos <= now.nanos,
        second.begins(get, args, later_ttl, true),
        daemon::answers(
            reply,
            get->Send_0,
            daemon::contents_after_all(daemon::contents_after(m, put->Send_0, stored), between),
            now,
            process,
        ),
        second.moves(Event::Replied(Some(reply)), last, action),
    ensures
        daemon::over(first.ttl_secs, stored, now) ==> action is RunOp,
        !daemon::over(first.ttl_secs, stored, now) ==> action is Answer && action->Answer_0@
            == wrote->stdout@,
{
    daemon::put_is_hit_until_it_lapses(
        m,
        put->Send_0,
        stored,
        between,
        get->Send_0,
        now,
        reply,
        process,
    );
}

/// What a read stores is what `op` wrote, under the arguments that were read, for the
/// whole seconds of the lifetime that was chosen, and for good exactly where none
/// was. Whatever the daemon said but a hit, `op` is run for it.
pub proof fn the_whole_lifetime_is_stored(
    args: Seq<Seq<char>>,
    ttl: Option<Duration>,
    first: Resolve,
    ask: Action,
    reply: Option<Response>,
    reading: Resolve,
    run: Action,
    code: Option<i32>,
    stdout: Vec<u8>,
    storing: Resolve,
    put: Action,
)
    requires
        ttl matches Some(d) ==> d.nanos < 1_000_000_000,
        first.begins(ask, args, ttl, true),
        reply matches Some(response) ==> response !is Hit,
        first.moves(Event::Replied(reply), reading, run),
        reading.moves(Event::Finished { success: true, code, stdout }, storing, put),
    ensures
        ask is Send,
        ask->Send_0 is Get,
        ask->Send_0->Get_key@ == text::joined(args, "\u{1f}"@),
        run is RunOp,
        put is Send,
        put->Send_0 is Put,
        put->Send_0->Put_key@ == text::joined(args, "\u{1f}"@),
        put->Send_0->Put_value@ == stdout@,
        ttl is None <==> put->Send_0->ttl_secs is None,
        ttl matches Some(d) ==> put->Send_0->ttl_secs matches Some(secs) && secs * 1_000_000_000
            <= d.secs * 1_000_000_000 + d.nanos < (secs + 1) * 1_000_000_000,
{
}

/// A secret that was read with a lifetime is answered without `op` to the next read
/// of the same arguments at any time before the whole seconds of that lifetime are
/// over, and `op` is run again from then on; without a lifetime it is always
/// answered.
pub proof fn the_next_read_is_answered_for_the_whole_lifetime(
    args: Seq<Seq<char>>,
    ttl: Option<Duration>,
    first: Resolve,
    ask: Action,
    reply: Option<Response>,
    reading: Resolve,
    run: Action,
    code: Option<i32>,
    stdout: Vec<u8>,
    storing: Resolve,
    put: Action,
    m: Contents,
    stored: Instant,
    later_ttl: Option<Duration>,
    second: Resolve,
    get: Action,
    now: Instant,
    said: Response,
    process: Process,
    last: Resolve,
    action: Action,
)
    requires
        ttl matches Some(d) ==> d.nanos < 1_000_000_000,
        first.begins(ask, args, ttl, true),
        reply matches Some(response) ==> response !is Hit,
        first.moves(Event::Replied(reply), reading, run),
        reading.moves(Event::Finished { success: true, code, stdout }, storing, put),
        second.begins(get, args, later_ttl, true),
        daemon::answers(
            said,
            get->Send_0,
            daemon::contents_after(m, put->Send_0, stored),
            now,
            process,
        ),
        second.moves(Event::Replied(Some(said)), last, action),
    ensures
        ttl is None ==> action is Answer && action->Answer_0@ == stdout@,
        ttl matches Some(d) ==> {
            &&& now.nanos < stored.nanos + d.secs * 1_000_000_000 ==> action is Answer
                && action->Answer_0@ == stdout@
            &&& now.nanos >= stored.nanos + d.secs * 1_000_000_000 ==> action is RunOp
        },
{
    daemon::a_put_secret_lives_all_its_seconds(
        m,
        put->Send_0,
        stored,
        get->Send_0,
        now,
        said,
        process,
    );
}

/// Without a daemon a read is what `op` makes of it: its secret, or its code.
pub proof fn without_a_daemon_op_decides(
    args: Seq<Seq<char>>,
    ttl: Option<Duration>,
    reading: Resolve,
    run: Action,
    success: bool,
    code: Option<i32>,
    stdout: Vec<u8>,
    next: Resolve,
    action: Action,
)
    requires
        reading.begins(run, args, ttl, false),
        reading.moves(Event::Finished { success, code, stdout }, next, action),
    ensures
        run is RunOp,
        success ==> action == Action::Answer(stdout),
        !success && code is Some ==> action == Action::Exit(code.unwrap()),
        !success && code is None ==> action == Action::Exit(1),
{
}

/// Whatever comes of storing it, the secret that `op` wrote is the answer.
pub proof fn storing_does_not_change_the_answer(
    reading: Resolve,
    code: Option<i32>,
    stdout: Vec<u8>,
    storing: Resolve,
    put: Action,
    reply: Option<Response>,
    next: Resolve,
    action: Action,
)
    requires
        reading.stage is Reading,
        reading.connected,
        reading.moves(Event::Finished { success: true, code, stdout }, storing, put),
        storing.moves(Event::Replied(reply), next, action),
    ensures
        action is Answer,
        action->Answer_0@ == stdout@,
{
}

/// The daemon's reply is waited for once it was asked or told something, whatever it
/// says, and what `op` left behind once it was run, whatever that is.
pub proof fn every_outcome_is_waited_for(resolve: Resolve, event: Event)
    ensures
        resolve.stage is Asking || resolve.stage is Storing ==> (resolve.awaits(event) <==> event is Replied),
        resolve.stage is Reading ==> (resolve.awaits(event) <==> event is Finished),
{
}

/// A daemon is asked first, for what the arguments stand for, whatever they are and
/// however many; without one `op` is run at once.
pub proof fn a_daemon_is_asked_first(
    resolve: Resolve,
    action: Action,
    args: Seq<Seq<char>>,
    ttl: Option<Duration>,
    connected: bool,
)
    requires
        resolve.begins(action, args, ttl, connected),
    ensures
        connected ==> resolve.stage is Asking && action is Send && action->Send_0 is Get
            && action->Send_0->Get_key@ == text::joined(args, "\u{1f}"@),
        !connected ==> resolve.stage is Reading && action is RunOp,
        resolve.connected == connected,
        resolve.key@ == text::joined(args, "\u{1f}"@),
{
}

/// Each step leads to the next: a miss to `op`, a success to the daemon if there is
/// one, and a hit, a failure or the end of storing to the end. The key, the lifetime
/// and the daemon stay what they were.
pub proof fn each_step_leads_to_the_next(resolve: Resolve, event: Event, next: Resolve, action: Action)
    requires
        resolve.moves(event, next, action),
    ensures
        next.key == resolve.key,
        next.ttl_secs == resolve.ttl_secs,
        next.connected == resolve.connected,
        resolve.stage is Asking ==> event is Replied,
        resolve.stage is Asking && !(event matches Event::Replied(Some(Response::Hit { value })))
            ==> next.stage is Reading && action is RunOp,
        resolve.stage is Reading ==> event is Finished,
        resolve.stage is Reading && event->success && resolve.connected ==> next.stage is Storing
            && next.stage->Storing_0@ == event->stdout@ && action is Send && action->Send_0 is Put
            && action->Send_0->Put_key@ == resolve.key@ && action->Send_0->Put_value@
            == event->stdout@ && action->Send_0->ttl_secs == resolve.ttl_secs,
        resolve.stage is Reading && event->success && !resolve.connected ==> next.stage is Over
            && action is Answer && action->Answer_0@ == event->stdout@,
        resolve.stage is Reading && !event->success ==> next.stage is Over && action is Exit,
        resolve.stage is Storing ==> next.stage is Over && action is Answer && action->Answer_0@
            == resolve.stage->Storing_0@,
{
}

} // verus!
