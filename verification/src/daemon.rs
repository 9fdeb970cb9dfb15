//! What the daemon does with a request, and when it has idled long enough.

use vstd::prelude::*;

use crate::cache::Cache;
use crate::cache::Contents;
use crate::cache::Held;
use crate::cache;
use crate::protocol::{Request, Response, Status};
use crate::text;
use crate::time::{Duration, Instant};

verus! {

/// What the daemon keeps between requests.
pub struct State {
    pub cache: Cache,
    pub last_activity: Instant,
}

/// What the daemon knows of itself while it answers.
#[derive(Clone, Copy, Debug)]
pub struct Process {
    pub pid: u32,
    /// How long the daemon has been up.
    pub uptime: Duration,
    pub idle_timeout_secs: Option<u64>,
}

/// What to send back, and whether to shut down once it is sent.
#[derive(Debug, PartialEq, Eq)]
pub struct Reply {
    pub response: Response,
    pub stop: bool,
}

/// The clock can count to the moment at which the secret lapses.
pub open spec fn countable(request: Request, now: Instant) -> bool {
    request matches Request::Put { ttl_secs: Some(t), .. } ==> now.nanos + t * 1_000_000_000
        <= u128::MAX
}

/// The lifetime that a number of seconds stands for.
pub open spec fn lifetime(ttl_secs: Option<u64>) -> Option<Duration> {
    match ttl_secs {
        Some(secs) => Some(Duration { secs, nanos: 0 }),
        None => None,
    }
}

/// What the cache holds once a request is served.
pub open spec fn contents_after(m: Contents, request: Request, now: Instant) -> Contents {
    match request {
        Request::Get { key } => cache::after_get(m, key@, now),
        Request::Put { key, value, ttl_secs } => cache::after_put(
            m,
            key@,
            value@,
            lifetime(ttl_secs),
            now,
        ),
        Request::Clear => Map::<Seq<char>, Held>::empty(),
        Request::Stop => m,
        Request::Status => m,
        Request::Inspect => m,
    }
}

/// The response that a request gets.
pub open spec fn answers(
    response: Response,
    request: Request,
    m: Contents,
    now: Instant,
    process: Process,
) -> bool {
    match request {
        Request::Get { key } => match cache::found(m, key@, now) {
            Some(held) => response matches Response::Hit { value } && value@ == held,
            None => response is Miss,
        },
        Request::Put { .. } => response is Done,
        Request::Clear => response is Done,
        Request::Stop => response is Done,
        Request::Status => response matches Response::Status(status) && status.pid == process.pid
            && status.uptime_secs == process.uptime.secs && status.idle_timeout_secs
            == process.idle_timeout_secs && status.cached == cache::live_keys(m, now).len(),
        Request::Inspect => {
            &&& response matches Response::Entries { entries }
            &&& cache::ascending(cache::entry_keys(entries@))
            &&& cache::entry_keys(entries@).to_set() == cache::live_keys(m, now)
            &&& entries@.len() == cache::live_keys(m, now).len()
            &&& forall|i: int| 0 <= i < entries@.len() ==> cache::shows(#[trigger] entries@[i], m, now)
        },
    }
}

impl State {
    /// The state of a daemon that starts at `now`.
    pub fn new(now: Instant) -> (state: State)
        ensures
            state.cache.wf(),
            state.cache@ == Map::<Seq<char>, Held>::empty(),
            state.last_activity == now,
    {
        State { cache: Cache::default(), last_activity: now }
    }

    /// Whether nothing has been asked for `idle` or longer.
    pub fn idled_out(&self, idle: Duration, now: Instant) -> (r: bool)
        ensures
            r == (idle.total() <= if self.last_activity.nanos <= now.nanos {
                now.nanos - self.last_activity.nanos
            } else {
                0
            }),
            self.last_activity.nanos <= now.nanos ==> r == (self.last_activity.nanos + idle.secs
                * 1_000_000_000 + idle.nanos <= now.nanos),
    {
        now.nanos_since(self.last_activity) >= idle.as_nanos()
    }
}

/// How long to sleep between two looks at the clock: a second, or the idle
/// timeout itself where that is shorter.
pub fn idle_poll(idle: Duration) -> (d: Duration)
    ensures
        d == if idle.total() < 1_000_000_000 {
            idle
        } else {
            (Duration { secs: 1, nanos: 0 })
        },
        idle.secs >= 1 ==> d == (Duration { secs: 1, nanos: 0 }),
        idle.secs == 0 && idle.nanos < 1_000_000_000 ==> d == idle,
{
    Duration::from_secs(1).min(idle)
}

/// Answers a request. Whatever is asked counts as activity; only a request to
/// stop stops the daemon, and it is answered first.
pub fn serve(request: Request, state: &mut State, now: Instant, process: Process) -> (reply: Reply)
    requires
        old(state).cache.wf(),
        countable(request, now),
    ensures
        final(state).cache.wf(),
        final(state).last_activity == now,
        final(state).cache@ == contents_after(old(state).cache@, request, now),
        answers(reply.response, request, old(state).cache@, now, process),
        reply.stop == (request is Stop),
{
    state.last_activity = now;
    match request {
        Request::Get { key } => {
            let response = match state.cache.get(key.as_str(), now) {
                Some(value) => Response::Hit { value: vstd::slice::slice_to_vec(value) },
                None => Response::Miss,
            };
            Reply { response, stop: false }
        },
        Request::Put { key, value, ttl_secs } => {
            let ttl = match ttl_secs {
                Some(secs) => Some(Duration::from_secs(secs)),
                None => None,
            };
            state.cache.put(key, value, ttl, now);
            Reply { response: Response::Done, stop: false }
        },
        Request::Clear => {
            state.cache.clear();
            Reply { response: Response::Done, stop: false }
        },
        Request::Status => {
            let cached = state.cache.keys(now).len();
            let status = Status {
                pid: process.pid,
                uptime_secs: process.uptime.as_secs(),
                idle_timeout_secs: process.idle_timeout_secs,
                cached,
            };
            Reply { response: Response::Status(status), stop: false }
        },
        Request::Inspect => {
            let entries = state.cache.entries(now);
            Reply { response: Response::Entries { entries }, stop: false }
        },
        Request::Stop => Reply { response: Response::Done, stop: true },
    }
}

/// The lifetime that a secret was stored with is over at `now`.
pub open spec fn over(ttl_secs: Option<u64>, stored: Instant, now: Instant) -> bool {
    ttl_secs matches Some(t) && stored.nanos + t * 1_000_000_000 <= now.nanos
}

/// What the cache holds once a number of requests are served, each at its time.
pub open spec fn contents_after_all(m: Contents, requests: Seq<(Request, Instant)>) -> Contents
    decreases requests.len(),
{
    if requests.len() == 0 {
        m
    } else {
        let (request, now) = requests.last();
        contents_after(contents_after_all(m, requests.drop_last()), request, now)
    }
}

/// The request neither stores anything under the key nor drops everything.
pub open spec fn leaves_alone(request: Request, key: Seq<char>) -> bool {
    &&& request !is Clear
    &&& request matches Request::Put { key: other, .. } ==> other@ != key
}

proof fn found_after_all(m: Contents, requests: Seq<(Request, Instant)>, key: Seq<char>, now: Instant)
    requires
        forall|i: int|
            0 <= i < requests.len() ==> leaves_alone((#[trigger] requests[i]).0, key)
                && requests[i].1.nanos <= now.nanos,
    ensures
        cache::found(contents_after_all(m, requests), key, now) == cache::found(m, key, now),
    decreases requests.len(),
{
    if requests.len() > 0 {
        let before = requests.drop_last();
        assert forall|i: int| 0 <= i < before.len() implies leaves_alone((#[trigger] before[i]).0, key)
            && before[i].1.nanos <= now.nanos by {
            assert(requests[i] == before[i]);
        }
        found_after_all(m, before, key, now);
        let last = requests[requests.len() - 1];
        assert(leaves_alone(last.0, key));
    }
}

/// A secret that was put is hit until its lifetime is over and missed from then
/// on, whatever is asked in between, as long as nothing stores another secret
/// under its key or clears the cache.
pub proof fn put_is_hit_until_it_lapses(
    m: Contents,
    put: Request,
    stored: Instant,
    between: Seq<(Request, Instant)>,
    get: Request,
    now: Instant,
    response: Response,
    process: Process,
)
    requires
        put is Put,
        get is Get,
        get->Get_key@ == put->Put_key@,
        forall|i: int|
            0 <= i < between.len() ==> leaves_alone((#[trigger] between[i]).0, put->Put_key@)
                && between[i].1.nanos <= now.nanos,
        answers(
            response,
            get,
            contents_after_all(contents_after(m, put, stored), between),
            now,
            process,
        ),
    ensures
        over(put->ttl_secs, stored, now) ==> response is Miss,
        !over(put->ttl_secs, stored, now) ==> response is Hit && response->Hit_value@
            == put->Put_value@,
{
    found_after_all(contents_after(m, put, stored), between, put->Put_key@, now);
}

/// Once cleared, every key is missed until something is put again.
pub proof fn clear_misses_every_key(
    m: Contents,
    cleared: Instant,
    get: Request,
    now: Instant,
    response: Response,
    process: Process,
)
    requires
        get is Get,
        answers(response, get, contents_after(m, Request::Clear, cleared), now, process),
    ensures
        response is Miss,
{
}

/// The status counts exactly the secrets that an inspection lists.
pub proof fn status_counts_what_inspect_lists(
    m: Contents,
    now: Instant,
    status: Response,
    entries: Response,
    process: Process,
)
    requires
        answers(status, Request::Status, m, now, process),
        answers(entries, Request::Inspect, m, now, process),
    ensures
        status->Status_0.cached == entries->entries@.len(),
{
}

/// Asking for a secret, for the status, for a list or to stop takes no secret
/// away that would still be found.
pub proof fn asking_keeps_what_is_found(
    m: Contents,
    request: Request,
    now: Instant,
    key: Seq<char>,
    later: Instant,
)
    requires
        request is Get || request is Status || request is Inspect || request is Stop,
        now.nanos <= later.nanos,
    ensures
        cache::found(contents_after(m, request, now), key, later) == cache::found(m, key, later),
{
}

/// A request is answered by what is found under its key: with it, or not at all.
pub proof fn a_get_is_answered_with_what_is_found(
    m: Contents,
    get: Request,
    now: Instant,
    response: Response,
    process: Process,
)
    requires
        get is Get,
        answers(response, get, m, now, process),
    ensures
        cache::found(m, get->Get_key@, now) matches Some(value) ==> response is Hit
            && response->Hit_value@ == value,
        cache::found(m, get->Get_key@, now) is None ==> response is Miss,
{
}

/// A secret that was put for so many seconds is hit at every time before they are
/// over, and missed from then on. Put for no number of seconds it is always hit.
pub proof fn a_put_secret_lives_all_its_seconds(
    m: Contents,
    put: Request,
    stored: Instant,
    get: Request,
    now: Instant,
    response: Response,
    process: Process,
)
    requires
        put is Put,
        get is Get,
        get->Get_key@ == put->Put_key@,
        answers(response, get, contents_after(m, put, stored), now, process),
    ensures
        put->ttl_secs is None ==> response is Hit && response->Hit_value@ == put->Put_value@,
        put->ttl_secs matches Some(secs) ==> {
            &&& now.nanos < stored.nanos + secs * 1_000_000_000 ==> response is Hit
                && response->Hit_value@ == put->Put_value@
            &&& now.nanos >= stored.nanos + secs * 1_000_000_000 ==> response is Miss
        },
{
}

/// No request changes what is found later under a key, but for one to clear and one
/// that puts another secret there.
pub proof fn requests_leave_other_secrets_alone(
    m: Contents,
    request: Request,
    at: Instant,
    key: Seq<char>,
    now: Instant,
)
    requires
        at.nanos <= now.nanos,
        request !is Clear,
        request is Put ==> request->Put_key@ != key,
    ensures
        cache::found(contents_after(m, request, at), key, now) == cache::found(m, key, now),
{
}

/// The status tells of the process itself, and counts the keys under which something
/// is found.
pub proof fn the_status_is_that_of_the_process(
    m: Contents,
    now: Instant,
    response: Response,
    process: Process,
)
    requires
        answers(response, Request::Status, m, now, process),
    ensures
        response is Status,
        response->Status_0.pid == process.pid,
        response->Status_0.uptime_secs == process.uptime.secs,
        response->Status_0.idle_timeout_secs == process.idle_timeout_secs,
        response->Status_0.cached == Set::new(
            |key: Seq<char>| cache::found(m, key, now) is Some,
        ).len(),
{
    assert(cache::live_keys(m, now) =~= Set::new(
        |key: Seq<char>| cache::found(m, key, now) is Some,
    ));
}

/// An inspection lists every secret that is found, and no other.
pub proof fn an_inspection_lists_what_is_found(
    m: Contents,
    now: Instant,
    response: Response,
    process: Process,
    key: Seq<char>,
)
    requires
        answers(response, Request::Inspect, m, now, process),
    ensures
        response is Entries,
        cache::found(m, key, now) is Some <==> exists|i: int|
            0 <= i < response->entries@.len() && (#[trigger] response->entries@[i]).key@ == key,
{
    let entries = response->entries@;
    let keys = cache::entry_keys(entries);
    assert(keys.to_set().contains(key) <==> cache::live_keys(m, now).contains(key));
    if keys.contains(key) {
        let i = choose|i: int| 0 <= i < keys.len() && keys[i] == key;
        assert(entries[i].key@ == key);
    }
    if exists|i: int| 0 <= i < entries.len() && (#[trigger] entries[i]).key@ == key {
        let i = choose|i: int| 0 <= i < entries.len() && (#[trigger] entries[i]).key@ == key;
        assert(keys[i] == key);
    }
}

/// A secret that was put is listed as long as it lasts, with the preview of its value
/// and the whole seconds that are left.
pub proof fn a_put_secret_is_listed(
    m: Contents,
    put: Request,
    stored: Instant,
    now: Instant,
    response: Response,
    process: Process,
)
    requires
        put is Put,
        stored.nanos <= now.nanos,
        put->ttl_secs matches Some(secs) ==> now.nanos < stored.nanos + secs * 1_000_000_000,
        answers(response, Request::Inspect, contents_after(m, put, stored), now, process),
    ensures
        response is Entries,
        exists|i: int|
            0 <= i < response->entries@.len() && (#[trigger] response->entries@[i]).key@
                == put->Put_key@ && response->entries@[i].preview@ == cache::preview(
                put->Put_value@,
            ) && response->entries@[i].expires_in_secs == (match put->ttl_secs {
                Some(secs) => Some(
                    ((stored.nanos + secs * 1_000_000_000 - now.nanos) / 1_000_000_000) as u64,
                ),
                None => None,
            }),
{
    let after = contents_after(m, put, stored);
    let key = put->Put_key@;
    assert(cache::found(after, key, now) is Some);
    an_inspection_lists_what_is_found(after, now, response, process, key);
    let entries = response->entries@;
    let i = choose|i: int| 0 <= i < entries.len() && (#[trigger] entries[i]).key@ == key;
    assert(cache::shows(entries[i], after, now));
    assert(entries[i].key@ == key);
}

/// Whatever a request stores is what it names: after it, the key holds that value,
/// and after a request to clear no key holds anything.
pub proof fn requests_store_what_they_name(m: Contents, request: Request, now: Instant, key: Seq<char>)
    ensures
        request is Put ==> contents_after(m, request, now).contains_key(request->Put_key@)
            && contents_after(m, request, now)[request->Put_key@].value == request->Put_value@,
        request is Clear ==> !contents_after(m, request, now).contains_key(key),
        request is Stop || request is Status || request is Inspect ==> contents_after(m, request, now)
            == m,
{
}

/// Every request can be served, and a secret put for any number of seconds, unless the
/// clock could not count them.
pub proof fn every_request_can_be_served(request: Request, now: Instant)
    ensures
        request !is Put ==> countable(request, now),
        request is Put && request->ttl_secs is None ==> countable(request, now),
        now.nanos <= u128::MAX - u64::MAX * 1_000_000_000 ==> countable(request, now),
{
}

/// An inspection lists each key once, in order, and shows of each secret the preview of
/// what is held and the whole seconds that are left of it.
pub proof fn an_inspection_shows_what_is_held(
    m: Contents,
    now: Instant,
    response: Response,
    process: Process,
    i: int,
    j: int,
)
    requires
        answers(response, Request::Inspect, m, now, process),
        0 <= i < response->entries@.len(),
    ensures
        i < j < response->entries@.len() ==> text::precedes(
            response->entries@[i].key@,
            response->entries@[j].key@,
        ),
        ({
            let entry = response->entries@[i];
            let held = m[entry.key@];
            &&& m.contains_key(entry.key@)
            &&& entry.preview@ == cache::preview(held.value)
            &&& entry.expires_in_secs is None <==> held.expires_at is None
            &&& held.expires_at matches Some(end) ==> now.nanos < end && (end - now.nanos < u64::MAX
                * 1_000_000_000 ==> entry.expires_in_secs == Some(
                ((end - now.nanos) / 1_000_000_000) as u64,
            ))
        }),
{
    let entries = response->entries@;
    let keys = cache::entry_keys(entries);
    assert(cache::shows(entries[i], m, now));
    assert(keys[i] == entries[i].key@);
    assert(keys.to_set().contains(keys[i]));
    assert(cache::live_keys(m, now).contains(keys[i]));
    if i < j < entries.len() {
        assert(keys[j] == entries[j].key@);
        assert(text::precedes(keys[i], keys[j]));
    }
}

} // verus!
