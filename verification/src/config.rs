//! The settings: how long secrets live, and where things are found.

use vstd::prelude::*;

use crate::spans;
use crate::text;
use crate::time::Duration;

verus! {

/// Where the configuration file is, when this variable is set.
pub const CONFIG_ENV: &'static str = "OP_CACHE_CONFIG";

/// Where the daemon's socket is, when this variable is set.
pub const SOCKET_ENV: &'static str = "OP_CACHE_SOCKET";

/// What is said of a text whose spans are too long for a duration.
pub const TOO_LARGE: &'static str = "number is too large or cannot be represented without a lack of precision (values below 1ns are not supported)";

/// What `humantime::parse_duration` makes of a text: the seconds and nanoseconds
/// that it names, or what is wrong with it.
pub uninterp spec fn parsed_duration(s: Seq<char>) -> Result<(u64, u32), Seq<char>>;

/// What `humantime::format_duration` writes for so many seconds and nanoseconds.
pub uninterp spec fn rendered_duration(secs: u64, nanos: u32) -> Seq<char>;

/// A reading of a duration, by what it holds.
pub open spec fn reading(r: Result<Duration, String>) -> Result<(u64, u32), Seq<char>> {
    match r {
        Ok(d) => Ok((d.secs, d.nanos)),
        Err(message) => Err(message@),
    }
}

/// Calls `humantime::parse_duration`, and turns the error into its message.
///
/// The result depends on the text alone, and the nanoseconds of the duration stay
/// below a second. The spans of the text are added up one by one, the fraction of a
/// span after its number. The call panics where the seconds so far come to
/// `u64::MAX` and the nanoseconds beside them to exactly a second more, which makes
/// `spans::BRIM` nanoseconds; `spans::countable` leaves those texts out.
#[verifier::external_body]
fn parse_duration(s: &str) -> (r: Result<Duration, String>)
    requires
        spans::countable(s@),
    ensures
        reading(r) == parsed_duration(s@),
        r matches Ok(d) ==> d.wf(),
{
    humantime::parse_duration(s)
        .map(|d| Duration { secs: d.as_secs(), nanos: d.subsec_nanos() })
        .map_err(|e| e.to_string())
}

/// Calls `humantime::format_duration`.
///
/// The text depends on the duration alone. It is documented to name the same
/// duration when it is read back. It is a list of spans that add up to the
/// duration, so no part of them comes to more, and it begins with a digit and ends
/// with a letter.
#[verifier::external_body]
pub(crate) fn format_duration(d: Duration) -> (s: String)
    requires
        d.wf(),
    ensures
        s@ == rendered_duration(d.secs, d.nanos),
        parsed_duration(s@) == reading(Ok(d)),
        s@.len() > 0,
        '0' <= s@[0] <= '9',
        'a' <= s@.last() <= 'z',
        spans::countable(s@),
{
    humantime::format_duration(std::time::Duration::new(d.secs, d.nanos)).to_string()
}

/// A word that stands for a lifetime without end.
pub open spec fn endless(s: Seq<char>) -> bool {
    s == ""@ || s == "never"@ || s == "forever"@ || s == "until-exit"@
}

/// The words that the configuration file has for a lifetime without end are read
/// as such.
pub proof fn until_exit_reads_as_endless()
    ensures
        endless(text::trimmed("until-exit"@)),
        endless(text::trimmed("never"@)),
{
    reveal_strlit("until-exit");
    reveal_strlit("never");
    assert(text::trimmed("until-exit"@) == "until-exit"@);
    assert(text::trimmed("never"@) == "never"@);
}

/// What a text says of a lifetime: without end, so long, or nothing that can be
/// understood, and why.
pub open spec fn lifetime(s: Seq<char>) -> Result<Option<Duration>, Seq<char>> {
    let t = text::trimmed(s);
    if endless(t) {
        Ok(None)
    } else if !spans::countable(t) {
        Err(TOO_LARGE@)
    } else {
        match parsed_duration(t) {
            Ok((secs, nanos)) => Ok(Some(Duration { secs, nanos })),
            Err(message) => Err(message),
        }
    }
}

/// A lifetime that was read, by what it holds.
pub open spec fn lifetime_read(r: Result<Option<Duration>, String>) -> Result<
    Option<Duration>,
    Seq<char>,
> {
    match r {
        Ok(d) => Ok(d),
        Err(message) => Err(message@),
    }
}

/// Reads a lifetime. White space around it does not matter. Spans that come to one
/// second more than can be counted are too large, as longer ones are.
pub fn parse_lifetime(s: &str) -> (r: Result<Option<Duration>, String>)
    ensures
        lifetime_read(r) == lifetime(s@),
        r matches Ok(d) ==> lifetime_wf(d),
{
    let t = text::trim(s);
    let word = t.as_str();
    if text::same(word, "") || text::same(word, "never") || text::same(word, "forever")
        || text::same(word, "until-exit") {
        return Ok(None);
    }
    if !spans::is_countable(word) {
        return Err(TOO_LARGE.to_owned());
    }
    match parse_duration(word) {
        Ok(d) => Ok(Some(d)),
        Err(message) => Err(message),
    }
}

/// White space around a lifetime does not matter.
pub proof fn trimming_keeps_the_lifetime(s: Seq<char>)
    ensures
        lifetime(text::trimmed(s)) == lifetime(s),
{
    text::trimming_twice_is_trimming_once(s);
}

/// Only the words for it are read as a lifetime without end.
pub proof fn only_words_are_endless(s: Seq<char>)
    ensures
        lifetime(s) == lifetime_read(Ok(None)) <==> endless(text::trimmed(s)),
{
}

/// What a lifetime is written as.
pub open spec fn written_lifetime(d: Option<Duration>, none: Seq<char>) -> Seq<char> {
    match d {
        Some(d) => rendered_duration(d.secs, d.nanos),
        None => none,
    }
}

/// Writes a lifetime, with `none` for one without end. What is written reads as
/// the same lifetime, if `none` is one of the words for it.
pub fn format_lifetime(d: Option<Duration>, none: &str) -> (s: String)
    requires
        d matches Some(x) ==> x.wf(),
    ensures
        s@ == written_lifetime(d, none@),
        d is Some || endless(text::trimmed(none@)) ==> lifetime(s@) == lifetime_read(Ok(d)),
{
    match d {
        Some(d) => {
            let s = format_duration(d);
            proof {
                assert(text::trimmed(s@) == s@);
                reveal_strlit("");
                reveal_strlit("never");
                reveal_strlit("forever");
                reveal_strlit("until-exit");
                assert(!endless(s@));
            }
            s
        },
        None => none.to_owned(),
    }
}

/// How long secrets live, when the daemon gives up, and where things are.
#[derive(Debug, Clone, PartialEq, Eq)]
pub struct Config {
    /// How long a cached secret lives. `None` keeps it until the daemon exits.
    pub ttl: Option<Duration>,
    /// How long the daemon stays up with no requests. `None` means forever.
    pub idle_timeout: Option<Duration>,
    pub op: String,
    pub socket: Option<String>,
    /// Per-reference lifetimes. A key ending in `/` covers everything under it.
    pub overrides: Vec<(String, Option<Duration>)>,
}

/// The references that a list of overrides speaks of.
pub open spec fn patterns(overrides: Seq<(String, Option<Duration>)>) -> Seq<Seq<char>> {
    Seq::new(overrides.len(), |i: int| overrides[i].0@)
}

/// A lifetime whose fields are in range.
pub open spec fn lifetime_wf(d: Option<Duration>) -> bool {
    d matches Some(x) ==> x.wf()
}

/// The references stand in order, none twice, and the lifetimes are in range.
pub open spec fn overrides_wf(overrides: Seq<(String, Option<Duration>)>) -> bool {
    &&& crate::cache::ascending(patterns(overrides))
    &&& forall|i: int| 0 <= i < overrides.len() ==> lifetime_wf((#[trigger] overrides[i]).1)
}

impl Default for Config {
    fn default() -> (config: Config)
        ensures
            config.wf(),
            config.ttl is None,
            config.idle_timeout is None,
            config.op@ == "op"@,
            config.socket is None,
            config.overrides@.len() == 0,
    {
        Config {
            ttl: None,
            idle_timeout: None,
            op: "op".to_owned(),
            socket: None,
            overrides: Vec::new(),
        }
    }
}

/// An override covers an argument: it names it, or it ends in `/` and the
/// argument lies under it.
pub open spec fn covers(pattern: Seq<char>, arg: Seq<char>) -> bool {
    pattern == arg || (pattern.len() > 0 && pattern.last() == '/' && pattern.is_prefix_of(arg))
}

/// Whether an override covers an argument.
fn is_covered(pattern: &str, arg: &str) -> (r: bool)
    ensures
        r == covers(pattern@, arg@),
{
    if text::same(pattern, arg) {
        return true;
    }
    let n = pattern.unicode_len();
    n > 0 && pattern.get_char(n - 1) == '/' && text::starts_with(arg, pattern)
}

/// How specific an override is: its length in bytes.
pub open spec fn weight(pattern: Seq<char>) -> nat {
    vstd::utf8::encode_utf8(pattern).len()
}

/// Override `j` covers argument `i`.
pub open spec fn hit(
    overrides: Seq<(String, Option<Duration>)>,
    args: Seq<String>,
    i: int,
    j: int,
) -> bool {
    0 <= i < args.len() && 0 <= j < overrides.len() && covers(overrides[j].0@, args[i]@)
}

/// No override that covers an argument is more specific than override `j` on
/// argument `i`, and none that is as specific stands on a later argument.
pub open spec fn prevails(
    overrides: Seq<(String, Option<Duration>)>,
    args: Seq<String>,
    i: int,
    j: int,
) -> bool {
    &&& hit(overrides, args, i, j)
    &&& forall|i2: int, j2: int|
        #[trigger] hit(overrides, args, i2, j2) ==> {
            ||| weight(overrides[j2].0@) < weight(overrides[j].0@)
            ||| weight(overrides[j2].0@) == weight(overrides[j].0@) && (i2 < i || (i2 == i && j2
                <= j))
        }
}

impl Config {
    /// The lifetimes are in range, and no reference has two overrides.
    pub open spec fn wf(self) -> bool {
        &&& lifetime_wf(self.ttl)
        &&& lifetime_wf(self.idle_timeout)
        &&& overrides_wf(self.overrides@)
    }

    /// The lifetime of the override that prevails on the arguments, or the global
    /// one where none covers any.
    pub open spec fn chosen_ttl(self, args: Seq<String>) -> Option<Duration> {
        if exists|i: int, j: int| #[trigger] prevails(self.overrides@, args, i, j) {
            let (i, j) = choose|i: int, j: int| #[trigger] prevails(self.overrides@, args, i, j);
            self.overrides@[j].1
        } else {
            self.ttl
        }
    }

    /// The lifetime for a `read` invocation: the most specific override that
    /// covers one of its arguments, otherwise the global `ttl`.
    pub fn ttl_for(&self, args: &[String]) -> (r: Option<Duration>)
        ensures
            r == self.chosen_ttl(args@),
    {
        let mut best: Option<(usize, usize, usize)> = None;
        let mut i: usize = 0;
        while i < args.len()
            invariant
                i <= args@.len(),
                best_so_far(self.overrides@, args@, i as int, 0, best),
            decreases args@.len() - i,
        {
            let mut j: usize = 0;
            while j < self.overrides.len()
                invariant
                    i < args@.len(),
                    j <= self.overrides@.len(),
                    best_so_far(self.overrides@, args@, i as int, j as int, best),
                decreases self.overrides@.len() - j,
            {
                let pattern = self.overrides[j].0.as_str();
                if is_covered(pattern, args[i].as_str()) {
                    let size = pattern.as_bytes().len();
                    let better = match best {
                        Some((_, _, most)) => size >= most,
                        None => true,
                    };
                    if better {
                        best = Some((i, j, size));
                    }
                }
                j = j + 1;
            }
            i = i + 1;
        }
        match best {
            Some((a, b, _)) => {
                proof {
                    prevailing_ttl(*self, args@, a as int, b as int);
                }
                self.overrides[b].1
            },
            None => self.ttl,
        }
    }
}

/// Only one override can prevail, so it is the one whose lifetime counts.
pub proof fn prevailing_ttl(config: Config, args: Seq<String>, i: int, j: int)
    requires
        prevails(config.overrides@, args, i, j),
    ensures
        config.chosen_ttl(args) == config.overrides@[j].1,
{
    let (a, b) = choose|a: int, b: int| #[trigger] prevails(config.overrides@, args, a, b);
    assert(prevails(config.overrides@, args, a, b));
    assert(hit(config.overrides@, args, i, j));
    assert(hit(config.overrides@, args, a, b));
}

/// Where no override covers any argument, the global lifetime counts.
pub proof fn uncovered_ttl(config: Config, args: Seq<String>)
    requires
        forall|i: int, j: int| !#[trigger] hit(config.overrides@, args, i, j),
    ensures
        config.chosen_ttl(args) == config.ttl,
{
}

proof fn encoded_beginning(a: Seq<char>, b: Seq<char>)
    requires
        a.is_prefix_of(b),
    ensures
        weight(a) <= weight(b),
        weight(a) == weight(b) ==> a == b,
    decreases a.len(),
{
    broadcast use vstd::utf8::char_is_scalar;

    if b.len() == 0 {
        assert(a =~= b);
    } else if a.len() == 0 {
        assert(vstd::utf8::encode_scalar(b[0] as u32).len() >= 1);
    } else {
        let x = a.drop_first();
        let y = b.drop_first();
        assert(a == b.subrange(0, a.len() as int));
        assert(a[0] == b[0]);
        assert(x =~= y.subrange(0, x.len() as int));
        encoded_beginning(x, y);
        if x == y {
            assert(a =~= seq![a[0]] + x);
            assert(b =~= seq![b[0]] + y);
        }
    }
}

/// An override that names the one argument prevails over all that cover it from
/// above.
pub proof fn exact_override_prevails(config: Config, args: Seq<String>, j: int)
    requires
        config.wf(),
        args.len() == 1,
        0 <= j < config.overrides@.len(),
        config.overrides@[j].0@ == args[0]@,
    ensures
        config.chosen_ttl(args) == config.overrides@[j].1,
{
    let overrides = config.overrides@;
    assert(hit(overrides, args, 0, j));
    assert forall|i2: int, j2: int| #[trigger] hit(overrides, args, i2, j2) implies {
        ||| weight(overrides[j2].0@) < weight(overrides[j].0@)
        ||| weight(overrides[j2].0@) == weight(overrides[j].0@) && (i2 < 0 || (i2 == 0 && j2 <= j))
    } by {
        let p = overrides[j2].0@;
        let a = args[0]@;
        if p == a {
            assert(patterns(overrides)[j] == a);
            assert(patterns(overrides)[j2] == a);
            text::precedes_irreflexive(a);
            assert(j2 == j);
        } else {
            encoded_beginning(p, a);
        }
    }
    assert(prevails(overrides, args, 0, j));
    prevailing_ttl(config, args, 0, j);
}

/// Of two overrides that cover the one argument the longer prevails, whatever
/// else does not cover it.
pub proof fn longer_override_prevails(config: Config, args: Seq<String>, j: int)
    requires
        config.wf(),
        args.len() == 1,
        hit(config.overrides@, args, 0, j),
        forall|j2: int|
            #[trigger] hit(config.overrides@, args, 0, j2) ==> config.overrides@[j2].0@.len()
                <= config.overrides@[j].0@.len(),
    ensures
        config.chosen_ttl(args) == config.overrides@[j].1,
{
    let overrides = config.overrides@;
    let a = args[0]@;
    let mine = overrides[j].0@;
    covering_is_a_beginning(mine, a);
    assert forall|i2: int, j2: int| #[trigger] hit(overrides, args, i2, j2) implies {
        ||| weight(overrides[j2].0@) < weight(mine)
        ||| weight(overrides[j2].0@) == weight(mine) && (i2 < 0 || (i2 == 0 && j2 <= j))
    } by {
        let p = overrides[j2].0@;
        assert(hit(overrides, args, 0, j2));
        covering_is_a_beginning(p, a);
        assert(p =~= mine.subrange(0, p.len() as int));
        encoded_beginning(p, mine);
        if p == mine {
            assert(patterns(overrides)[j] == patterns(overrides)[j2]);
            text::precedes_irreflexive(mine);
            assert(j2 == j);
        }
    }
    assert(prevails(overrides, args, 0, j));
    prevailing_ttl(config, args, 0, j);
}

proof fn covering_is_a_beginning(pattern: Seq<char>, arg: Seq<char>)
    requires
        covers(pattern, arg),
    ensures
        pattern.is_prefix_of(arg),
{
    if pattern == arg {
        assert(pattern =~= arg.subrange(0, pattern.len() as int));
    }
}

/// `best` is the pair that prevails among those looked at: all on arguments
/// before `i`, and the first `j` overrides on argument `i`.
spec fn best_so_far(
    overrides: Seq<(String, Option<Duration>)>,
    args: Seq<String>,
    i: int,
    j: int,
    best: Option<(usize, usize, usize)>,
) -> bool {
    match best {
        None => forall|i2: int, j2: int|
            (i2 < i || (i2 == i && j2 < j)) ==> !#[trigger] hit(overrides, args, i2, j2),
        Some((a, b, most)) => {
            &&& hit(overrides, args, a as int, b as int)
            &&& a < i || (a == i && b < j)
            &&& most == weight(overrides[b as int].0@)
            &&& forall|i2: int, j2: int|
                (i2 < i || (i2 == i && j2 < j)) && #[trigger] hit(overrides, args, i2, j2) ==> {
                    ||| weight(overrides[j2].0@) < most
                    ||| weight(overrides[j2].0@) == most && (i2 < a || (i2 == a && j2 <= b))
                }
        },
    }
}

/// The bytes of a path with a relative one under it: a separator comes between
/// unless the path is empty or ends with one.
pub open spec fn under(base: Seq<u8>, leaf: Seq<u8>) -> Seq<u8> {
    if base.len() == 0 || base.last() == 47 {
        base + leaf
    } else {
        base.push(47) + leaf
    }
}

/// The bytes of a string.
pub open spec fn bytes(s: Seq<char>) -> Seq<u8> {
    vstd::utf8::encode_utf8(s)
}

/// Adds the bytes of a string at the end.
fn push_bytes(v: &mut Vec<u8>, s: &str)
    ensures
        final(v)@ == old(v)@ + bytes(s@),
{
    let b = s.as_bytes();
    let ghost before = v@;
    let mut i: usize = 0;
    assert(b@.take(0) =~= Seq::<u8>::empty());
    while i < b.len()
        invariant
            i <= b.len(),
            v@ =~= before + b@.take(i as int),
        decreases b.len() - i,
    {
        v.push(b[i]);
        i = i + 1;
        assert(b@.take(i as int) =~= b@.take(i - 1).push(b@[i - 1]));
    }
    assert(b@.take(b@.len() as int) =~= b@);
}

/// The path `leaf` under `base`.
fn join_path(base: Vec<u8>, leaf: &str) -> (path: Vec<u8>)
    ensures
        path@ == under(base@, bytes(leaf@)),
{
    let mut path = base;
    let n = path.len();
    if n > 0 && path[n - 1] != 47 {
        path.push(47);
    }
    push_bytes(&mut path, leaf);
    path
}

/// The bytes of a path that a string spells.
fn path_of(s: &str) -> (path: Vec<u8>)
    ensures
        path@ == bytes(s@),
{
    let mut path: Vec<u8> = Vec::new();
    push_bytes(&mut path, s);
    assert(path@ =~= bytes(s@));
    path
}

/// The bytes that a variable holds, if it is set.
pub open spec fn held(var: Option<Vec<u8>>) -> Option<Seq<u8>> {
    match var {
        Some(v) => Some(v@),
        None => None,
    }
}

/// The home directory for what `HOME` holds: the root where it is not set.
pub open spec fn home_dir(home: Option<Seq<u8>>) -> Seq<u8> {
    match home {
        Some(h) => h,
        None => bytes("/"@),
    }
}

/// The home directory.
pub fn home(var: Option<Vec<u8>>) -> (path: Vec<u8>)
    ensures
        path@ == home_dir(held(var)),
{
    match var {
        Some(h) => h,
        None => path_of("/"),
    }
}

/// Where the configuration file is: where `OP_CACHE_CONFIG` says, or else in a
/// directory of its own under `XDG_CONFIG_HOME`, which counts only when it is an
/// absolute path, or else under `.config` in the home directory.
pub open spec fn config_file(
    chosen: Option<Seq<u8>>,
    config_home: Option<Seq<u8>>,
    home: Option<Seq<u8>>,
) -> Seq<u8> {
    match chosen {
        Some(path) => path,
        None => {
            let base = match config_home {
                Some(dir) => if dir.len() > 0 && dir[0] == 47 {
                    dir
                } else {
                    under(home_dir(home), bytes(".config"@))
                },
                None => under(home_dir(home), bytes(".config"@)),
            };
            under(under(base, bytes("op-cache"@)), bytes("config.toml"@))
        },
    }
}

/// Where the configuration file is, by what `OP_CACHE_CONFIG`, `XDG_CONFIG_HOME`
/// and `HOME` hold.
pub fn config_path(
    chosen: Option<Vec<u8>>,
    config_home: Option<Vec<u8>>,
    home_var: Option<Vec<u8>>,
) -> (path: Vec<u8>)
    ensures
        path@ == config_file(held(chosen), held(config_home), held(home_var)),
{
    match chosen {
        Some(path) => path,
        None => {
            let base = match config_home {
                Some(dir) => if dir.len() > 0 && dir[0] == 47 {
                    dir
                } else {
                    join_path(home(home_var), ".config")
                },
                None => join_path(home(home_var), ".config"),
            };
            join_path(join_path(base, "op-cache"), "config.toml")
        },
    }
}

/// Where the socket is unless something else is said: in the runtime directory,
/// or else in the temporary one, under a name that holds the user's number.
pub open spec fn default_socket(
    runtime_dir: Option<Seq<u8>>,
    tmp_dir: Option<Seq<u8>>,
    uid: u32,
) -> Seq<u8> {
    match runtime_dir {
        Some(dir) => under(dir, bytes("op-cache.sock"@)),
        None => under(
            match tmp_dir {
                Some(dir) => dir,
                None => bytes("/tmp"@),
            },
            bytes("op-cache-"@ + text::decimal(uid as nat) + ".sock"@),
        ),
    }
}

/// Where the socket is by default, by what `XDG_RUNTIME_DIR` and `TMPDIR` hold
/// and by the number of the user who owns the home directory.
pub fn default_socket_path(runtime_dir: Option<Vec<u8>>, tmp_dir: Option<Vec<u8>>, uid: u32) -> (path:
    Vec<u8>)
    ensures
        path@ == default_socket(held(runtime_dir), held(tmp_dir), uid),
{
    match runtime_dir {
        Some(dir) => join_path(dir, "op-cache.sock"),
        None => {
            let dir = match tmp_dir {
                Some(dir) => dir,
                None => path_of("/tmp"),
            };
            let mut name = "op-cache-".to_owned();
            name.append(text::number(uid as u64).as_str());
            name.append(".sock");
            join_path(dir, name.as_str())
        },
    }
}

impl Config {
    /// Where the socket is: where `OP_CACHE_SOCKET` says, or else where the
    /// configuration does, or else at the default place.
    pub fn socket_path(&self, chosen: Option<Vec<u8>>, default: Vec<u8>) -> (path: Vec<u8>)
        ensures
            path@ == match (held(chosen), self.socket) {
                (Some(path), _) => path,
                (None, Some(socket)) => bytes(socket@),
                (None, None) => default@,
            },
    {
        match chosen {
            Some(path) => path,
            None => match &self.socket {
                Some(socket) => path_of(socket.as_str()),
                None => default,
            },
        }
    }
}

/// The most specific override decides, however many arguments there are: if an
/// override covers one of them, by name or as what it lies under, and every other
/// that covers any of them is shorter in bytes, its lifetime is chosen.
pub proof fn the_most_specific_override_decides(config: Config, args: Seq<String>, i: int, j: int)
    requires
        0 <= i < args.len(),
        0 <= j < config.overrides@.len(),
        ({
            let pattern = config.overrides@[j].0@;
            pattern == args[i]@ || (pattern.len() > 0 && pattern.last() == '/'
                && pattern.is_prefix_of(args[i]@))
        }),
        forall|i2: int, j2: int|
            0 <= i2 < args.len() && 0 <= j2 < config.overrides@.len() && j2 != j ==> {
                let other = (#[trigger] config.overrides@[j2]).0@;
                let arg = (#[trigger] args[i2])@;
                other == arg || (other.len() > 0 && other.last() == '/' && other.is_prefix_of(arg))
                    ==> vstd::utf8::encode_utf8(other).len() < vstd::utf8::encode_utf8(
                    config.overrides@[j].0@,
                ).len()
            },
    ensures
        config.chosen_ttl(args) == config.overrides@[j].1,
{
    let overrides = config.overrides@;
    assert(hit(overrides, args, i, j));
    let last = last_covered(overrides, args, i, j);
    assert forall|i2: int, j2: int| #[trigger] hit(overrides, args, i2, j2) implies {
        ||| weight(overrides[j2].0@) < weight(overrides[j].0@)
        ||| weight(overrides[j2].0@) == weight(overrides[j].0@) && (i2 < last || (i2 == last && j2
            <= j))
    } by {
        if j2 != j {
            assert(overrides[j2] == overrides[j2] && args[i2] == args[i2]);
        }
    }
    assert(prevails(overrides, args, last, j));
    prevailing_ttl(config, args, last, j);
}

proof fn last_covered(
    overrides: Seq<(String, Option<Duration>)>,
    args: Seq<String>,
    i: int,
    j: int,
) -> (last: int)
    requires
        hit(overrides, args, i, j),
    ensures
        hit(overrides, args, last, j),
        forall|i2: int| #[trigger] hit(overrides, args, i2, j) ==> i2 <= last,
    decreases args.len() - i,
{
    if exists|i2: int| i2 > i && #[trigger] hit(overrides, args, i2, j) {
        let i2 = choose|i2: int| i2 > i && #[trigger] hit(overrides, args, i2, j);
        last_covered(overrides, args, i2, j)
    } else {
        i
    }
}

/// Of overrides that are equally specific the one on the later argument decides, and
/// of those on one argument the later override.
pub proof fn of_equals_the_later_decides(config: Config, args: Seq<String>, i: int, j: int)
    requires
        0 <= i < args.len(),
        0 <= j < config.overrides@.len(),
        ({
            let pattern = config.overrides@[j].0@;
            pattern == args[i]@ || (pattern.len() > 0 && pattern.last() == '/'
                && pattern.is_prefix_of(args[i]@))
        }),
        forall|i2: int, j2: int|
            0 <= i2 < args.len() && 0 <= j2 < config.overrides@.len() ==> {
                let other = (#[trigger] config.overrides@[j2]).0@;
                let arg = (#[trigger] args[i2])@;
                let mine = config.overrides@[j].0@;
                other == arg || (other.len() > 0 && other.last() == '/' && other.is_prefix_of(arg))
                    ==> vstd::utf8::encode_utf8(other).len() < vstd::utf8::encode_utf8(mine).len()
                    || (vstd::utf8::encode_utf8(other).len() == vstd::utf8::encode_utf8(mine).len()
                    && (i2 < i || (i2 == i && j2 <= j)))
            },
    ensures
        config.chosen_ttl(args) == config.overrides@[j].1,
{
    let overrides = config.overrides@;
    assert(hit(overrides, args, i, j));
    assert forall|i2: int, j2: int| #[trigger] hit(overrides, args, i2, j2) implies {
        ||| weight(overrides[j2].0@) < weight(overrides[j].0@)
        ||| weight(overrides[j2].0@) == weight(overrides[j].0@) && (i2 < i || (i2 == i && j2 <= j))
    } by {
        assert(overrides[j2] == overrides[j2] && args[i2] == args[i2]);
    }
    assert(prevails(overrides, args, i, j));
    prevailing_ttl(config, args, i, j);
}

/// Where no override names an argument, nor ends in `/` and begins one, the global
/// lifetime is chosen.
pub proof fn without_an_override_the_global_lifetime_is_chosen(config: Config, args: Seq<String>)
    requires
        forall|i: int, j: int|
            0 <= i < args.len() && 0 <= j < config.overrides@.len() ==> {
                let pattern = (#[trigger] config.overrides@[j]).0@;
                let arg = (#[trigger] args[i])@;
                pattern != arg && !(pattern.len() > 0 && pattern.last() == '/'
                    && pattern.is_prefix_of(arg))
            },
    ensures
        config.chosen_ttl(args) == config.ttl,
{
    assert forall|i: int, j: int| !#[trigger] hit(config.overrides@, args, i, j) by {
        if 0 <= i < args.len() && 0 <= j < config.overrides@.len() {
            assert(config.overrides@[j] == config.overrides@[j] && args[i] == args[i]);
        }
    }
    uncovered_ttl(config, args);
}

/// Four words, with any white space around them, name a lifetime without end. Any
/// other text is what `humantime` makes of it, unless its spans are too long.
pub proof fn a_lifetime_is_a_word_or_a_duration(s: Seq<char>)
    ensures
        ({
            let t = text::trimmed(s);
            if t == ""@ || t == "never"@ || t == "forever"@ || t == "until-exit"@ {
                lifetime(s) matches Ok(d) && d is None
            } else if spans::countable(t) {
                match parsed_duration(t) {
                    Ok(d) => lifetime(s) matches Ok(Some(x)) && x.secs == d.0 && x.nanos == d.1,
                    Err(message) => lifetime(s) matches Err(m) && m == message,
                }
            } else {
                lifetime(s) is Err
            }
        }),
{
}

/// A lifetime is written as `humantime` writes it, and one without end as the word
/// that is given for it.
pub proof fn a_lifetime_is_written_whole(secs: u64, nanos: u32, none: Seq<char>)
    ensures
        written_lifetime(Some(Duration { secs, nanos }), none) == rendered_duration(secs, nanos),
        written_lifetime(None, none) == none,
{
}

/// A path under another has one separator between the two, unless the other is empty
/// or brings one along.
pub proof fn one_separator_parts_a_path(base: Seq<u8>, leaf: Seq<u8>)
    ensures
        base.len() > 0 && base.last() != 47 ==> under(base, leaf) == base + seq![47u8] + leaf,
        under(base.push(47), leaf) == base + seq![47u8] + leaf,
        under(Seq::empty(), leaf) == leaf,
{
    assert(base.push(47) =~= base + seq![47u8]);
    assert(Seq::<u8>::empty() + leaf =~= leaf);
}

/// A file that is chosen is taken. Otherwise it is `op-cache/config.toml` under the
/// absolute directory for configurations, or else under `.config` in the home
/// directory, and that is the root where none is set.
pub proof fn the_configuration_file_has_its_place(
    chosen: Seq<u8>,
    config_home: Option<Seq<u8>>,
    home: Option<Seq<u8>>,
    dir: Seq<u8>,
)
    ensures
        config_file(Some(chosen), config_home, home) == chosen,
        dir.len() > 0 && dir[0] == 47 ==> config_file(None, Some(dir), home) == under(
            dir,
            vstd::utf8::encode_utf8("op-cache"@),
        ) + seq![47u8] + vstd::utf8::encode_utf8("config.toml"@),
        dir.len() == 0 || dir[0] != 47 ==> config_file(None, Some(dir), home) == config_file(
            None,
            None,
            home,
        ),
        config_file(None, None, Some(dir)) == under(dir, vstd::utf8::encode_utf8(".config"@))
            + seq![47u8] + vstd::utf8::encode_utf8("op-cache"@) + seq![47u8]
            + vstd::utf8::encode_utf8("config.toml"@),
        config_file(None, None, None) == config_file(None, None, Some(seq![47u8])),
        home_dir(Some(dir)) == dir,
        home_dir(None) == seq![47u8],
{
    reveal_strlit("op-cache");
    reveal_strlit(".config");
    reveal_strlit("/");
    vstd::utf8::is_ascii_chars_encode_utf8("op-cache"@);
    vstd::utf8::is_ascii_chars_encode_utf8(".config"@);
    vstd::utf8::is_ascii_chars_encode_utf8("/"@);
    let name = vstd::utf8::encode_utf8("op-cache"@);
    let hidden = vstd::utf8::encode_utf8(".config"@);
    assert("op-cache"@.last() == 'e' && ".config"@.last() == 'g');
    assert(name.len() == 8 && name.last() == 101);
    assert(hidden.len() == 7 && hidden.last() == 103);
    assert(bytes("/"@) =~= seq![47u8]);
    let sep = seq![47u8];
    let file = vstd::utf8::encode_utf8("config.toml"@);
    let near = under(dir, name);
    assert(near.last() == name.last());
    assert(near.push(47) + file =~= near + sep + file);
    let far = under(dir, hidden);
    assert(far.last() == hidden.last());
    assert(under(far, name) =~= far + sep + name);
    assert(under(far, name).last() == name.last());
    assert(under(far, name).push(47) + file =~= far + sep + name + sep + file);
}

/// The socket is in the runtime directory, or else in the temporary one under a name
/// that holds the number of the user, which is `/tmp` where none is set.
pub proof fn the_socket_has_its_place(
    runtime: Seq<u8>,
    tmp_dir: Option<Seq<u8>>,
    tmp: Seq<u8>,
    uid: u32,
)
    ensures
        default_socket(Some(runtime), tmp_dir, uid) == under(
            runtime,
            vstd::utf8::encode_utf8("op-cache.sock"@),
        ),
        default_socket(None, Some(tmp), uid) == under(
            tmp,
            vstd::utf8::encode_utf8("op-cache-"@ + text::decimal(uid as nat) + ".sock"@),
        ),
        default_socket(None, None, uid) == default_socket(
            None,
            Some(vstd::utf8::encode_utf8("/tmp"@)),
            uid,
        ),
{
}

/// A lifetime is in range where its nanoseconds stay below a second, and what was read
/// is taken as it is.
pub proof fn lifetimes_are_taken_as_they_are(d: Duration, message: String)
    ensures
        lifetime_wf(Some(d)) <==> d.nanos < 1_000_000_000,
        lifetime_wf(None),
        reading(Ok(d)) matches Ok(x) && x.0 == d.secs && x.1 == d.nanos,
        reading(Err(message)) matches Err(m) && m == message@,
        lifetime_read(Ok(Some(d))) matches Ok(x) && x == Some(d),
        lifetime_read(Ok(None)) matches Ok(x) && x is None,
        lifetime_read(Err(message)) matches Err(m) && m == message@,
{
}

/// A configuration is in range where its lifetimes are and its overrides ascend.
pub proof fn a_configuration_in_range(config: Config)
    ensures
        config.wf() <==> {
            &&& config.ttl matches Some(d) ==> d.nanos < 1_000_000_000
            &&& config.idle_timeout matches Some(d) ==> d.nanos < 1_000_000_000
            &&& forall|i: int|
                0 <= i < config.overrides@.len() ==> ((#[trigger] config.overrides@[i]).1 matches Some(
                    d,
                ) ==> d.nanos < 1_000_000_000)
            &&& forall|i: int, j: int|
                0 <= i < j < config.overrides@.len() ==> text::precedes(
                    (#[trigger] config.overrides@[i]).0@,
                    (#[trigger] config.overrides@[j]).0@,
                )
        },
{
    let overrides = config.overrides@;
    if config.wf() {
        assert forall|i: int, j: int| 0 <= i < j < overrides.len() implies text::precedes(
            (#[trigger] overrides[i]).0@,
            (#[trigger] overrides[j]).0@,
        ) by {
            assert(text::precedes(patterns(overrides)[i], patterns(overrides)[j]));
        }
    } else if lifetime_wf(config.ttl) && lifetime_wf(config.idle_timeout) {
        if !crate::cache::ascending(patterns(overrides)) {
            let (i, j) = choose|i: int, j: int|
                0 <= i < j < patterns(overrides).len() && !text::precedes(
                    #[trigger] patterns(overrides)[i],
                    #[trigger] patterns(overrides)[j],
                );
            assert(!text::precedes(overrides[i].0@, overrides[j].0@));
        } else {
            let i = choose|i: int| 0 <= i < overrides.len() && !lifetime_wf((#[trigger] overrides[i]).1);
            assert(!(overrides[i].1 matches Some(d) ==> d.nanos < 1_000_000_000));
        }
    }
}

} // verus!
