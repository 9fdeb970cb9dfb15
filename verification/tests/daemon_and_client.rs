use op_cache::cli::{op_refs, env_value};
use op_cache::client::{Action as Connect, Client, Connecting, Event as Happened};
use op_cache::config::Config;
use op_cache::daemon::{idle_poll, serve, Process, State};
use op_cache::protocol::{Entry, Request, Response, Status};
use op_cache::report;
use op_cache::resolve::{Action, Event, Resolve};
use op_cache::time::{Duration, Instant};

const SECOND: u128 = 1_000_000_000;

/// A daemon and an `op` that logs every call, both in this process.
struct Harness {
    config: Config,
    state: Option<State>,
    now: Instant,
    calls: Vec<String>,
}

impl Harness {
    fn new(config: Config) -> Harness {
        let now = Instant { nanos: 7 * SECOND };
        Harness { config, state: Some(State::new(now)), now, calls: Vec::new() }
    }

    fn pass(&mut self, nanos: u128) {
        self.now = Instant { nanos: self.now.nanos + nanos };
    }

    fn send(&mut self, request: Request) -> Option<Response> {
        let process = Process { pid: 42, uptime: Duration::from_secs(61), idle_timeout_secs: None };
        let now = self.now;
        let reply = serve(request, self.state.as_mut()?, now, process);
        if reply.stop {
            self.state = None;
        }
        Some(reply.response)
    }

    fn op(&mut self, args: &[String]) -> Event {
        self.calls.push(format!("read {}", args.join(" ")));
        if args.join(" ").contains("fail") {
            return Event::Finished { success: false, code: Some(3), stdout: Vec::new() };
        }
        let stdout = format!("secret-for-{}\n", args[0]).into_bytes();
        Event::Finished { success: true, code: Some(0), stdout }
    }

    fn read(&mut self, args: &[&str]) -> Result<String, i32> {
        let args: Vec<String> = args.iter().map(|s| s.to_string()).collect();
        let (mut resolve, mut action) = Resolve::start(&self.config, &args, self.state.is_some());
        loop {
            let event = match action {
                Action::Send(request) => Event::Replied(self.send(request)),
                Action::RunOp => self.op(&args),
                Action::Answer(value) => return Ok(String::from_utf8(value).unwrap()),
                Action::Exit(code) => return Err(code),
            };
            action = resolve.step(event);
        }
    }

    fn status(&mut self) -> String {
        let head = report::settings("/c", "/s", self.config.ttl);
        let Some(Response::Status(status)) = self.send(Request::Status) else {
            return head + &report::not_running();
        };
        let Some(Response::Entries { entries }) = self.send(Request::Inspect) else {
            panic!("no entries");
        };
        head + &report::running(&status, &entries)
    }
}

#[test]
fn a_second_read_is_answered_without_op_until_cleared() {
    let mut h = Harness::new(Config::default());
    assert_eq!(h.read(&["op://v/item/field"]).unwrap(), "secret-for-op://v/item/field\n");
    assert_eq!(h.read(&["op://v/item/field"]).unwrap(), "secret-for-op://v/item/field\n");
    assert_eq!(h.calls, ["read op://v/item/field"]);

    let status = h.status();
    assert!(status.contains("cached   1"), "{status}");
    assert!(status.contains("  op://v/item/field"), "{status}");

    assert_eq!(h.send(Request::Clear), Some(Response::Done));
    h.read(&["op://v/item/field"]).unwrap();
    assert_eq!(h.calls.len(), 2);

    assert_eq!(h.send(Request::Stop), Some(Response::Done));
    assert!(h.status().contains("daemon   not running"));
    assert_eq!(h.send(Request::Stop), None);
}

#[test]
fn reads_with_other_flags_are_other_entries() {
    let mut h = Harness::new(Config::default());
    h.read(&["op://v/i/f"]).unwrap();
    h.read(&["--account", "work", "op://v/i/f"]).unwrap();
    h.read(&["--account", "work", "op://v/i/f"]).unwrap();
    assert_eq!(h.calls, ["read op://v/i/f", "read --account work op://v/i/f"]);
}

#[test]
fn references_in_the_environment_come_through_the_cache() {
    let mut h = Harness::new(Config::default());
    let vars = vec![
        ("TOKEN".to_string(), "op://v/tok/credential".to_string()),
        ("PLAIN".to_string(), "op-less".to_string()),
    ];
    let refs = op_refs(vars);
    assert_eq!(refs.len(), 1);
    let value = h.read(&[&refs[0].1]).unwrap();
    assert_eq!(
        env_value(value.into_bytes()),
        Ok("secret-for-op://v/tok/credential".to_string())
    );
    assert_eq!(
        h.read(&["op://v/tok/credential"]).unwrap(),
        "secret-for-op://v/tok/credential\n"
    );
    assert_eq!(h.calls, ["read op://v/tok/credential"]);
}

#[test]
fn entries_lapse_after_their_ttl_unless_an_override_keeps_them() {
    let config = Config {
        ttl: Some(Duration::from_secs(1)),
        overrides: vec![("op://v/keep/".to_string(), None)],
        ..Config::default()
    };
    let mut h = Harness::new(config);
    h.read(&["op://v/i/f"]).unwrap();
    h.read(&["op://v/keep/f"]).unwrap();
    h.read(&["op://v/i/f"]).unwrap();
    let status = h.status();
    assert!(status.contains("  op://v/i/f  expires in"), "{status}");
    assert!(status.contains("  op://v/keep/f\n"), "{status}");

    h.pass(1_100_000_000);
    h.read(&["op://v/i/f"]).unwrap();
    h.read(&["op://v/keep/f"]).unwrap();
    assert_eq!(
        h.calls,
        ["read op://v/i/f", "read op://v/keep/f", "read op://v/i/f"]
    );
}

#[test]
fn failed_reads_keep_their_code_and_are_not_stored() {
    let mut h = Harness::new(Config::default());
    assert_eq!(h.read(&["op://v/fail/f"]), Err(3));
    assert_eq!(h.read(&["op://v/fail/f"]), Err(3));
    assert_eq!(h.calls.len(), 2);
    assert!(h.status().contains("cached   0"));
}

#[test]
fn without_a_daemon_it_is_just_op() {
    let mut h = Harness::new(Config::default());
    h.send(Request::Stop);
    assert_eq!(h.read(&["op://v/i/f"]).unwrap(), "secret-for-op://v/i/f\n");
    assert_eq!(h.read(&["op://v/i/f"]).unwrap(), "secret-for-op://v/i/f\n");
    assert_eq!(h.calls.len(), 2);
}

#[test]
fn a_daemon_that_fails_does_not_stand_in_the_way() {
    let args = vec!["op://v/i/f".to_string()];
    let (mut resolve, action) = Resolve::start(&Config::default(), &args, true);
    assert_eq!(action, Action::Send(Request::Get { key: "op://v/i/f".to_string() }));
    assert_eq!(resolve.step(Event::Replied(None)), Action::RunOp);
    let wrote = Event::Finished { success: true, code: Some(0), stdout: b"s".to_vec() };
    assert_eq!(
        resolve.step(wrote),
        Action::Send(Request::Put {
            key: "op://v/i/f".to_string(),
            value: b"s".to_vec(),
            ttl_secs: None
        })
    );
    assert_eq!(resolve.step(Event::Replied(None)), Action::Answer(b"s".to_vec()));

    let (mut resolve, _) = Resolve::start(&Config::default(), &args, true);
    assert_eq!(resolve.step(Event::Replied(Some(Response::Miss))), Action::RunOp);
    let failed = Event::Finished { success: false, code: None, stdout: b"s".to_vec() };
    assert_eq!(resolve.step(failed), Action::Exit(1));
}

#[test]
fn requests_are_answered_and_count_as_activity() {
    let start = Instant { nanos: 0 };
    let mut state = State::new(start);
    let process = Process {
        pid: 9,
        uptime: Duration { secs: 5, nanos: 999_999_999 },
        idle_timeout_secs: Some(60),
    };
    let idle = Duration::from_secs(60);
    let t = |secs: u128| Instant { nanos: secs * SECOND };
    assert!(!state.idled_out(idle, t(59)));
    assert!(state.idled_out(idle, t(60)));

    let put = Request::Put { key: "k".into(), value: vec![1, 2], ttl_secs: Some(10) };
    let reply = serve(put, &mut state, t(30), process);
    assert_eq!((reply.response, reply.stop), (Response::Done, false));
    assert!(!state.idled_out(idle, t(60)));
    assert!(state.idled_out(idle, t(90)));

    let reply = serve(Request::Get { key: "k".into() }, &mut state, t(39), process);
    assert_eq!(reply.response, Response::Hit { value: vec![1, 2] });
    let reply = serve(Request::Status, &mut state, t(39), process);
    assert_eq!(
        reply.response,
        Response::Status(Status {
            pid: 9,
            uptime_secs: 5,
            idle_timeout_secs: Some(60),
            cached: 1
        })
    );
    let reply = serve(Request::Inspect, &mut state, t(39), process);
    assert_eq!(
        reply.response,
        Response::Entries {
            entries: vec![Entry {
                key: "k".into(),
                preview: "••••".into(),
                expires_in_secs: Some(1)
            }]
        }
    );
    let reply = serve(Request::Get { key: "k".into() }, &mut state, t(40), process);
    assert_eq!(reply.response, Response::Miss);
    let reply = serve(Request::Clear, &mut state, t(41), process);
    assert_eq!((reply.response, reply.stop), (Response::Done, false));
    let reply = serve(Request::Stop, &mut state, t(42), process);
    assert_eq!((reply.response, reply.stop), (Response::Done, true));
}

#[test]
fn the_clock_is_looked_at_every_second_or_sooner() {
    assert_eq!(idle_poll(Duration::from_secs(60)), Duration::from_secs(1));
    let short = Duration { secs: 0, nanos: 5 };
    assert_eq!(idle_poll(short), short);
    assert_eq!(idle_poll(Duration::from_secs(1)), Duration::from_secs(1));
}

#[test]
fn a_daemon_that_runs_is_used() {
    let (connecting, action) = Client::connect_or_spawn();
    assert_eq!(action, Connect::Try);
    assert_eq!(connecting.step(Happened::Tried(true)).1, Connect::Connected);
    let client = Client::connect(b"/s".to_vec(), true);
    assert_eq!(client, Some(Client { socket: b"/s".to_vec() }));
    assert_eq!(Client::connect(b"/s".to_vec(), false), None);
}

#[test]
fn a_daemon_is_started_and_waited_for() {
    let at = |nanos: u128| Instant { nanos };
    let (connecting, _) = Client::connect_or_spawn();
    let (starting, action) = connecting.step(Happened::Tried(false));
    assert_eq!(action, Connect::Start);
    assert_eq!(starting.step(Happened::NotStarted), (Connecting::Over, Connect::GiveUp));

    let (waiting, action) = starting.step(Happened::Started(at(10)));
    assert_eq!(waiting, Connecting::Waiting(at(10 + 3 * SECOND)));
    assert_eq!(action, Connect::Wait(Duration::from_secs(0)));
    let (trying, action) = waiting.step(Happened::Waited(at(11)));
    assert_eq!(action, Connect::Try);
    assert_eq!(trying.step(Happened::Tried(true)).1, Connect::Connected);
    let (waiting, action) = trying.step(Happened::Tried(false));
    assert_eq!(action, Connect::Wait(Duration { secs: 0, nanos: 20_000_000 }));
    assert_eq!(waiting.step(Happened::Waited(at(9 + 3 * SECOND))).1, Connect::Try);
    assert_eq!(
        waiting.step(Happened::Waited(at(10 + 3 * SECOND))),
        (Connecting::Over, Connect::GiveUp)
    );
}
