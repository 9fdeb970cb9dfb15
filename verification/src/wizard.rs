//! The config wizard: what it asks, what it makes of the answers, and what it says
//! at the end.

use vstd::prelude::*;

use crate::config::Config;
use crate::config;
use crate::prompt::{Confirm, Input, Key, Select, Session, Step, Validator};
use crate::prompt;
use crate::style::Look;
use crate::style;
use crate::text;
use crate::time::Duration;

verus! {

/// What the wizard says before its first question.
pub const REMARK: &'static str = "Secrets are held in memory by a background daemon.\nThese settings decide how long they stay there.";

/// What the wizard says when the running daemon does not know the new settings.
pub const STALE: &'static str = "A daemon is already running with the old settings. Run `op-cache stop` to restart it.";

/// What the wizard says when it is told not to write.
pub const UNWRITTEN: &'static str = "Nothing was written.";

/// What stands above the configuration when it is only printed.
pub fn heading(path: &str) -> (r: String)
    ensures
        r@ == "# "@ + path@
            + "\n# `op-cache config` on a terminal walks through these interactively.\n"@,
{
    let mut r = "# ".to_owned();
    r.append(path);
    r.append("\n# `op-cache config` on a terminal walks through these interactively.\n");
    r
}

/// A path as it is shown: with `~` for the home directory that it begins with.
pub open spec fn shortened(path: Seq<char>, home: Option<Seq<char>>) -> Seq<char> {
    match home {
        Some(h) => if h.len() > 0 && h.is_prefix_of(path) {
            "~"@ + path.skip(h.len() as int)
        } else {
            path
        },
        None => path,
    }
}

/// Shows a path, with `~` for the home directory that it begins with.
pub fn display_path(path: &str, home: &Option<String>) -> (r: String)
    ensures
        r@ == shortened(path@, text::optional(*home)),
{
    match home {
        Some(h) => {
            if !h.as_str().is_empty() && text::starts_with(path, h.as_str()) {
                let n = h.as_str().unicode_len();
                let all = path.unicode_len();
                let mut r = "~".to_owned();
                r.append(path.substring_char(n, all));
                assert(path@.skip(h@.len() as int) =~= path@.subrange(n as int, all as int));
                return r;
            }
        },
        None => {},
    }
    path.to_owned()
}

/// The lifetime that an answer gives, if it gives one with an end.
pub open spec fn given(s: Seq<char>) -> Option<Duration> {
    match config::lifetime(s) {
        Ok(d) => d,
        Err(_) => None,
    }
}

/// The lifetime that an answer gives.
pub fn given_lifetime(s: &str) -> (r: Option<Duration>)
    ensures
        r == given(s@),
        config::lifetime_wf(r),
{
    match config::parse_lifetime(s) {
        Ok(d) => d,
        Err(_) => None,
    }
}

/// What is said of an answer that gives no lifetime.
pub const NO_LIFETIME: &'static str = "use a duration like 30m, 2h or 1d";

/// What is said of a path that is not absolute.
pub const NOT_ABSOLUTE: &'static str = "give an absolute path";

/// Whether an answer gives a lifetime with an end.
pub fn check_lifetime(s: &String) -> (r: Result<(), String>)
    ensures
        r is Ok == (given(s@) is Some),
        r matches Err(message) ==> message@ == NO_LIFETIME@,
{
    match given_lifetime(s.as_str()) {
        Some(_) => Ok(()),
        None => Err(NO_LIFETIME.to_owned()),
    }
}

/// Whether an answer is an absolute path.
pub fn check_socket(s: &String) -> (r: Result<(), String>)
    ensures
        r is Ok == (s@.len() > 0 && s@[0] == '/'),
        r matches Err(message) ==> message@ == NOT_ABSOLUTE@,
{
    if !s.as_str().is_empty() && s.as_str().get_char(0) == '/' {
        Ok(())
    } else {
        Err(NOT_ABSOLUTE.to_owned())
    }
}

/// What an answer has to be.
#[derive(Clone, Copy, Debug, PartialEq, Eq, Structural)]
pub enum Check {
    Anything,
    Lifetime,
    AbsolutePath,
}

impl Check {
    /// What is wrong with an answer.
    pub open spec fn complaint(self, answer: Seq<char>) -> Option<Seq<char>> {
        match self {
            Check::Anything => None,
            Check::Lifetime => if given(answer) is Some {
                None
            } else {
                Some(NO_LIFETIME@)
            },
            Check::AbsolutePath => if answer.len() > 0 && answer[0] == '/' {
                None
            } else {
                Some(NOT_ABSOLUTE@)
            },
        }
    }
}

impl Validator for Check {
    open spec fn handles(self, answer: String) -> bool {
        true
    }

    open spec fn judges(self, answer: String, verdict: Result<(), String>) -> bool {
        match verdict {
            Ok(_) => self.complaint(answer@) is None,
            Err(message) => self.complaint(answer@) == Some(message@),
        }
    }

    fn check(&self, answer: &String) -> (verdict: Result<(), String>) {
        match self {
            Check::Anything => Ok(()),
            Check::Lifetime => check_lifetime(answer),
            Check::AbsolutePath => check_socket(answer),
        }
    }
}

/// What the wizard asks.
#[derive(Debug)]
pub enum Question {
    Choice(Select<bool>),
    Text(Input<Check>),
    Decision(Confirm),
}

/// What it is answered.
#[derive(Debug, PartialEq, Eq)]
pub enum Answer {
    Choice(bool),
    Text(String),
    Decision(bool),
}

/// How far the wizard has come: the question that is open, or its end.
#[derive(Clone, Copy, Debug, PartialEq, Eq, Structural)]
pub enum Stage {
    Ttl,
    TtlLength,
    Idle,
    IdleLength,
    Op,
    Socket,
    SocketPath,
    Review,
    /// The new configuration is to be written.
    Accepted,
    /// Nothing is to be written.
    Declined,
}

/// The wizard at work.
#[derive(Debug)]
pub struct Wizard {
    /// The configuration as it is.
    pub current: Config,
    /// Where it is written.
    pub path: String,
    /// Where the socket is unless something else is said.
    pub default_socket: String,
    pub home: Option<String>,
    pub stage: Stage,
    /// What was answered.
    pub ttl: Option<Duration>,
    pub idle_timeout: Option<Duration>,
    pub op: String,
    pub socket: Option<String>,
}

/// A choice between no and yes, of which one is chosen at first.
pub open spec fn offers(
    menu: Select<bool>,
    question: Seq<char>,
    no: (Seq<char>, Seq<char>),
    yes: (Seq<char>, Seq<char>),
    first: bool,
) -> bool {
    &&& menu.question@ == question
    &&& menu.items@.len() == 2
    &&& menu.items@[0].0 == false
    &&& menu.items@[0].1@ == no.0
    &&& menu.items@[0].2@ == no.1
    &&& menu.items@[1].0 == true
    &&& menu.items@[1].1@ == yes.0
    &&& menu.items@[1].2@ == yes.1
    &&& menu.cursor == if first {
        1usize
    } else {
        0usize
    }
    &&& menu.top == 0
    &&& menu.visible == usize::MAX
}

fn offer(question: &str, no: (&str, &str), yes: (&str, &str), first: bool) -> (menu: Select<bool>)
    ensures
        offers(menu, question@, (no.0@, no.1@), (yes.0@, yes.1@), first),
{
    let menu = prompt::select(question).item(false, no.0, no.1);
    let ghost one = menu.items@;
    let menu = menu.item(true, yes.0, yes.1);
    assert(menu.items@[0] == one[0]);
    assert(one[0] == one.last());
    menu.initial_value(first)
}

/// A text to be typed that has to pass a check, with what an empty one means.
pub open spec fn wants(
    field: Input<Check>,
    question: Seq<char>,
    placeholder: Option<Seq<char>>,
    default: Seq<char>,
    check: Check,
) -> bool {
    &&& field.question@ == question
    &&& field.value@.len() == 0
    &&& text::optional(field.placeholder) == placeholder
    &&& text::optional(field.default) == Some(default)
    &&& field.validator == check
}

fn want(question: &str, default: &str, check: Check) -> (field: Input<Check>)
    ensures
        wants(field, question@, None, default@, check),
{
    let field = prompt::input(question).default_input(default);
    Input {
        question: field.question,
        value: field.value,
        placeholder: field.placeholder,
        default: field.default,
        validator: check,
    }
}

/// What an empty answer means where a length is asked for: the current one, or the
/// example.
pub open spec fn default_length(current: Option<Duration>, example: Seq<char>) -> Seq<char> {
    config::written_lifetime(current, example)
}

/// The question for a length. An empty answer gives the current one again.
pub open spec fn wants_length(
    field: Input<Check>,
    current: Option<Duration>,
    example: Seq<char>,
) -> bool {
    &&& wants(
        field,
        "For how long?"@,
        Some("e.g. "@ + example + ", 30m, 2d"@),
        default_length(current, example),
        Check::Lifetime,
    )
    &&& current is Some ==> given(default_length(current, example)) == current
}

fn want_length(current: Option<Duration>, example: &str) -> (field: Input<Check>)
    requires
        config::lifetime_wf(current),
    ensures
        wants_length(field, current, example@),
{
    let default = config::format_lifetime(current, example);
    let mut placeholder = "e.g. ".to_owned();
    placeholder.append(example);
    placeholder.append(", 30m, 2d");
    want("For how long?", default.as_str(), Check::Lifetime).placeholder(placeholder.as_str())
}

/// Two paths are the same to `std::path::Path`.
pub uninterp spec fn paths_equal(a: Seq<char>, b: Seq<char>) -> bool;

/// Calls `==` of `std::path::Path`: the two paths have the same components. It
/// depends on the two texts alone, and a path is equal to itself.
#[verifier::external_body]
fn same_path(a: &str, b: &str) -> (r: bool)
    ensures
        r == paths_equal(a@, b@),
        a@ == b@ ==> r,
{
    std::path::Path::new(a) == std::path::Path::new(b)
}

/// The same socket is meant.
pub open spec fn same_socket(a: Option<Seq<char>>, b: Option<Seq<char>>) -> bool {
    match (a, b) {
        (Some(a), Some(b)) => paths_equal(a, b),
        (None, None) => true,
        _ => false,
    }
}

/// Whether a daemon that runs by one configuration does not do what the other says:
/// it idles out at another time, or listens elsewhere. Nothing else makes a
/// difference to it.
pub fn daemon_affected(current: &Config, next: &Config) -> (r: bool)
    ensures
        r == (next.idle_timeout != current.idle_timeout || !same_socket(next@.socket, current@.socket)),
        next.idle_timeout == current.idle_timeout && next@.socket == current@.socket ==> !r,
{
    let same_idle = match (next.idle_timeout, current.idle_timeout) {
        (Some(a), Some(b)) => a.secs == b.secs && a.nanos == b.nanos,
        (None, None) => true,
        _ => false,
    };
    if !same_idle {
        return true;
    }
    match (&next.socket, &current.socket) {
        (Some(a), Some(b)) => !same_path(a.as_str(), b.as_str()),
        (None, None) => false,
        _ => true,
    }
}

impl Wizard {
    /// The current configuration and the answers are in range.
    pub open spec fn wf(self) -> bool {
        &&& self.current.wf()
        &&& config::lifetime_wf(self.ttl)
        &&& config::lifetime_wf(self.idle_timeout)
    }

    /// A wizard that has not asked anything yet.
    pub fn new(current: Config, path: String, default_socket: String, home: Option<String>) -> (r: Wizard)
        requires
            current.wf(),
        ensures
            r.wf(),
            r.current == current,
            r.path == path,
            r.default_socket == default_socket,
            r.home == home,
            r.stage is Ttl,
    {
        Wizard {
            current,
            path,
            default_socket,
            home,
            stage: Stage::Ttl,
            ttl: None,
            idle_timeout: None,
            op: String::new(),
            socket: None,
        }
    }

    /// Where the socket is now, unless the environment says something else.
    pub open spec fn current_socket(self) -> Seq<char> {
        match self.current.socket {
            Some(s) => s@,
            None => self.default_socket@,
        }
    }

    /// The question that is open.
    pub open spec fn asks(self, question: Question) -> bool {
        match self.stage {
            Stage::Ttl => question is Choice && offers(
                question->Choice_0,
                "How long should a cached secret live?"@,
                ("Until the daemon exits"@, "the default; nothing ever goes stale on its own"@),
                ("For a fixed duration"@, "re-read from 1Password once it lapses"@),
                self.current.ttl is Some,
            ),
            Stage::TtlLength => question is Text && wants_length(
                question->Text_0,
                self.current.ttl,
                "1h"@,
            ),
            Stage::Idle => question is Choice && offers(
                question->Choice_0,
                "Should the daemon shut down after sitting idle?"@,
                ("No, keep it running"@, "until op-cache stop, or the machine reboots"@),
                ("Yes, after a quiet period"@, "drops every secret from memory when it exits"@),
                self.current.idle_timeout is Some,
            ),
            Stage::IdleLength => question is Text && wants_length(
                question->Text_0,
                self.current.idle_timeout,
                "8h"@,
            ),
            Stage::Op => question is Text && wants(
                question->Text_0,
                "Which op binary should it call?"@,
                None,
                self.current.op@,
                Check::Anything,
            ),
            Stage::Socket => question is Choice && offers(
                question->Choice_0,
                "Where should the daemon's socket live?"@,
                (
                    "The default location"@,
                    shortened(self.default_socket@, text::optional(self.home)),
                ),
                ("A path of my choosing"@, ""@),
                self.current.socket is Some,
            ),
            Stage::SocketPath => question is Text && wants(
                question->Text_0,
                "Socket path?"@,
                None,
                self.current_socket(),
                Check::AbsolutePath,
            ),
            Stage::Review => {
                &&& question matches Question::Decision(c)
                &&& c.question@ == "Write "@ + shortened(self.path@, text::optional(self.home)) + "?"@
                &&& c.yes
            },
            Stage::Accepted => false,
            Stage::Declined => false,
        }
    }

    /// The question that is open, if there is one.
    pub fn question(&self) -> (r: Option<Question>)
        requires
            self.wf(),
        ensures
            match r {
                Some(question) => self.asks(question),
                None => self.stage is Accepted || self.stage is Declined,
            },
    {
        match self.stage {
            Stage::Ttl => Some(
                Question::Choice(
                    offer(
                        "How long should a cached secret live?",
                        (
                            "Until the daemon exits",
                            "the default; nothing ever goes stale on its own",
                        ),
                        ("For a fixed duration", "re-read from 1Password once it lapses"),
                        self.current.ttl.is_some(),
                    ),
                ),
            ),
            Stage::TtlLength => Some(Question::Text(want_length(self.current.ttl, "1h"))),
            Stage::Idle => Some(
                Question::Choice(
                    offer(
                        "Should the daemon shut down after sitting idle?",
                        ("No, keep it running", "until op-cache stop, or the machine reboots"),
                        (
                            "Yes, after a quiet period",
                            "drops every secret from memory when it exits",
                        ),
                        self.current.idle_timeout.is_some(),
                    ),
                ),
            ),
            Stage::IdleLength => Some(
                Question::Text(want_length(self.current.idle_timeout, "8h")),
            ),
            Stage::Op => Some(
                Question::Text(
                    want(
                        "Which op binary should it call?",
                        self.current.op.as_str(),
                        Check::Anything,
                    ),
                ),
            ),
            Stage::Socket => {
                let place = display_path(self.default_socket.as_str(), &self.home);
                Some(
                    Question::Choice(
                        offer(
                            "Where should the daemon's socket live?",
                            ("The default location", place.as_str()),
                            ("A path of my choosing", ""),
                            self.current.socket.is_some(),
                        ),
                    ),
                )
            },
            Stage::SocketPath => {
                let default = match &self.current.socket {
                    Some(s) => s,
                    None => &self.default_socket,
                };
                Some(
                    Question::Text(
                        want("Socket path?", default.as_str(), Check::AbsolutePath),
                    ),
                )
            },
            Stage::Review => {
                let mut s = "Write ".to_owned();
                s.append(display_path(self.path.as_str(), &self.home).as_str());
                s.append("?");
                Some(Question::Decision(prompt::confirm(s.as_str()).initial_value(true)))
            },
            Stage::Accepted | Stage::Declined => None,
        }
    }

    /// The answer is one to the question that is open.
    pub open spec fn awaits(self, answer: Answer) -> bool {
        match self.stage {
            Stage::Ttl | Stage::Idle | Stage::Socket => answer is Choice,
            Stage::TtlLength | Stage::IdleLength | Stage::Op | Stage::SocketPath => answer is Text,
            Stage::Review => answer is Decision,
            Stage::Accepted | Stage::Declined => false,
        }
    }

    /// What an answer makes of the wizard: what was answered is kept, and the next
    /// question is opened; where a length or a path is wanted, that is asked first.
    pub open spec fn after(self, answer: Answer) -> Wizard {
        match (self.stage, answer) {
            (Stage::Ttl, Answer::Choice(false)) => Wizard { ttl: None, stage: Stage::Idle, ..self },
            (Stage::Ttl, Answer::Choice(true)) => Wizard { stage: Stage::TtlLength, ..self },
            (Stage::TtlLength, Answer::Text(s)) => Wizard {
                ttl: given(s@),
                stage: Stage::Idle,
                ..self
            },
            (Stage::Idle, Answer::Choice(false)) => Wizard {
                idle_timeout: None,
                stage: Stage::Op,
                ..self
            },
            (Stage::Idle, Answer::Choice(true)) => Wizard { stage: Stage::IdleLength, ..self },
            (Stage::IdleLength, Answer::Text(s)) => Wizard {
                idle_timeout: given(s@),
                stage: Stage::Op,
                ..self
            },
            (Stage::Op, Answer::Text(s)) => Wizard { op: s, stage: Stage::Socket, ..self },
            (Stage::Socket, Answer::Choice(false)) => Wizard {
                socket: None,
                stage: Stage::Review,
                ..self
            },
            (Stage::Socket, Answer::Choice(true)) => Wizard { stage: Stage::SocketPath, ..self },
            (Stage::SocketPath, Answer::Text(s)) => Wizard {
                socket: Some(s),
                stage: Stage::Review,
                ..self
            },
            (Stage::Review, Answer::Decision(true)) => Wizard { stage: Stage::Accepted, ..self },
            (Stage::Review, Answer::Decision(false)) => Wizard { stage: Stage::Declined, ..self },
            _ => self,
        }
    }

    /// Takes the answer to the question that is open.
    pub fn answer(&mut self, answer: Answer)
        requires
            old(self).wf(),
            old(self).awaits(answer),
        ensures
            final(self).wf(),
            *final(self) == old(self).after(answer),
            old(self).stage is TtlLength ==> final(self).ttl == (match config::lifetime(
                answer->Text_0@,
            ) {
                Ok(d) => d,
                Err(_) => None,
            }),
            old(self).stage is IdleLength ==> final(self).idle_timeout == (match config::lifetime(
                answer->Text_0@,
            ) {
                Ok(d) => d,
                Err(_) => None,
            }),
            old(self).stage is Op ==> final(self).op == answer->Text_0,
            old(self).stage is SocketPath ==> final(self).socket == Some(answer->Text_0),
    {
        match answer {
            Answer::Choice(yes) => {
                match self.stage {
                    Stage::Ttl => {
                        if yes {
                            self.stage = Stage::TtlLength;
                        } else {
                            self.ttl = None;
                            self.stage = Stage::Idle;
                        }
                    },
                    Stage::Idle => {
                        if yes {
                            self.stage = Stage::IdleLength;
                        } else {
                            self.idle_timeout = None;
                            self.stage = Stage::Op;
                        }
                    },
                    _ => {
                        if yes {
                            self.stage = Stage::SocketPath;
                        } else {
                            self.socket = None;
                            self.stage = Stage::Review;
                        }
                    },
                }
            },
            Answer::Text(s) => {
                match self.stage {
                    Stage::TtlLength => {
                        self.ttl = given_lifetime(s.as_str());
                        self.stage = Stage::Idle;
                    },
                    Stage::IdleLength => {
                        self.idle_timeout = given_lifetime(s.as_str());
                        self.stage = Stage::Op;
                    },
                    Stage::Op => {
                        self.op = s;
                        self.stage = Stage::Socket;
                    },
                    _ => {
                        self.socket = Some(s);
                        self.stage = Stage::Review;
                    },
                }
            },
            Answer::Decision(yes) => {
                self.stage = if yes {
                    Stage::Accepted
                } else {
                    Stage::Declined
                };
            },
        }
    }

    /// The socket as the review shows it: where the environment says, or else where
    /// it was answered, or else at the default place.
    pub open spec fn reviewed_socket(self, chosen: Option<Seq<char>>) -> Seq<char> {
        match (chosen, self.socket) {
            (Some(s), _) => s,
            (None, Some(s)) => s@,
            (None, None) => self.default_socket@,
        }
    }

    /// The answers, each after its label.
    pub open spec fn reviewed(self, chosen: Option<Seq<char>>, colors: bool) -> Seq<char> {
        label("Secrets live"@, colors) + config::written_lifetime(
            self.ttl,
            "until the daemon exits"@,
        ) + "\n"@ + label("Daemon idles"@, colors) + config::written_lifetime(
            self.idle_timeout,
            "forever"@,
        ) + "\n"@ + label("op binary"@, colors) + self.op@ + "\n"@ + label("Socket"@, colors)
            + self.reviewed_socket(chosen)
    }

    /// Shows the answers, each after its label. `chosen` is what the environment
    /// says of the socket.
    pub fn review(&self, chosen: &Option<String>, colors: bool) -> (r: String)
        requires
            self.wf(),
        ensures
            r@ == self.reviewed(text::optional(*chosen), colors),
    {
        let mut r = write_label("Secrets live", colors);
        r.append(config::format_lifetime(self.ttl, "until the daemon exits").as_str());
        r.append("\n");
        r.append(write_label("Daemon idles", colors).as_str());
        r.append(config::format_lifetime(self.idle_timeout, "forever").as_str());
        r.append("\n");
        r.append(write_label("op binary", colors).as_str());
        r.append(self.op.as_str());
        r.append("\n");
        r.append(write_label("Socket", colors).as_str());
        match (chosen, &self.socket) {
            (Some(s), _) => r.append(s.as_str()),
            (None, Some(s)) => r.append(s.as_str()),
            (None, None) => r.append(self.default_socket.as_str()),
        }
        r
    }

    /// What is said once the configuration is written.
    pub fn saved(&self) -> (r: String)
        ensures
            r@ == "Saved to "@ + shortened(self.path@, text::optional(self.home)),
    {
        let mut r = "Saved to ".to_owned();
        r.append(display_path(self.path.as_str(), &self.home).as_str());
        r
    }

    /// The configuration that was answered, with the overrides as they were.
    pub open spec fn meant(self) -> Config {
        Config {
            ttl: self.ttl,
            idle_timeout: self.idle_timeout,
            op: self.op,
            socket: self.socket,
            overrides: self.current.overrides,
        }
    }

    /// The configuration that was answered.
    pub fn into_config(self) -> (r: Config)
        requires
            self.wf(),
        ensures
            r == self.meant(),
            r.wf(),
    {
        Config {
            ttl: self.ttl,
            idle_timeout: self.idle_timeout,
            op: self.op,
            socket: self.socket,
            overrides: self.current.overrides,
        }
    }

    /// What was answered so far is what the current configuration says.
    pub open spec fn unchanged(self) -> bool {
        &&& !(self.stage is Ttl || self.stage is TtlLength) ==> self.ttl == self.current.ttl
        &&& self.stage is TtlLength ==> self.current.ttl is Some
        &&& !(self.stage is Ttl || self.stage is TtlLength || self.stage is Idle
            || self.stage is IdleLength) ==> self.idle_timeout == self.current.idle_timeout
        &&& self.stage is IdleLength ==> self.current.idle_timeout is Some
        &&& self.stage is Socket || self.stage is SocketPath || self.answered() ==> self.op@
            == self.current.op@
        &&& self.stage is SocketPath ==> self.current.socket is Some
        &&& self.answered() ==> text::optional(self.socket) == text::optional(self.current.socket)
    }

    /// Everything but the decision to write is answered.
    pub open spec fn answered(self) -> bool {
        self.stage is Review || self.stage is Accepted || self.stage is Declined
    }
}

/// A label of the review: dimmed, in a column of its own.
pub open spec fn label(s: Seq<char>, colors: bool) -> Seq<char> {
    style::painted(text::padded(s, 14), Look::Dim, colors)
}

fn write_label(s: &str, colors: bool) -> (r: String)
    ensures
        r@ == label(s@, colors),
{
    style::paint(text::pad(s, 14).as_str(), Look::Dim, colors)
}

/// The answer that a question gets when Enter is pressed and nothing else.
pub open spec fn entered(question: Question, answer: Answer) -> bool {
    match question {
        Question::Choice(menu) => answer == Answer::Choice(menu.items@[menu.cursor as int].0),
        Question::Text(field) => answer is Text && text::optional(field.default) == Some(
            answer->Text_0@,
        ),
        Question::Decision(c) => answer == Answer::Decision(c.yes),
    }
}

/// Enter at a choice takes the item that the cursor stands on.
pub proof fn enter_takes_the_choice(
    menu: Select<bool>,
    session: Session<Select<bool>>,
    next: Session<Select<bool>>,
    step: Step<bool>,
)
    requires
        session.widget.items == menu.items,
        session.widget.cursor == menu.cursor,
        session.steps(Key::Enter, next, step),
    ensures
        step is Done,
        entered(Question::Choice(menu), Answer::Choice(step->Done_0)),
{
    let result = choose|result: Result<bool, String>| #[trigger] session.enters(next, step, result);
    assert(session.enters(next, step, result));
}

/// Enter where nothing is typed takes the default, unless it does not pass the
/// check.
pub proof fn enter_takes_the_default(
    field: Input<Check>,
    session: Session<Input<Check>>,
    next: Session<Input<Check>>,
    step: Step<String>,
)
    requires
        field.value@.len() == 0,
        field.default is Some,
        session.widget == field,
        session.steps(Key::Enter, next, step),
    ensures
        step is Done == (field.validator.complaint(field.default.unwrap()@) is None),
        step is Done ==> entered(Question::Text(field), Answer::Text(step->Done_0)),
{
    let result = choose|result: Result<String, String>| #[trigger] session.enters(next, step, result);
    assert(session.enters(next, step, result));
    let value = next.widget.value;
    let verdict = choose|verdict: Result<(), String>| #[trigger]
        field.validator.judges(value, verdict) && prompt::taken(value, verdict, result);
    assert(field.validator.judges(value, verdict) && prompt::taken(value, verdict, result));
}

/// Enter at a decision takes what it stands on.
pub proof fn enter_takes_the_decision(
    decision: Confirm,
    session: Session<Confirm>,
    next: Session<Confirm>,
    step: Step<bool>,
)
    requires
        session.widget == decision,
        session.steps(Key::Enter, next, step),
    ensures
        step is Done,
        entered(Question::Decision(decision), Answer::Decision(step->Done_0)),
{
    let result = choose|result: Result<bool, String>| #[trigger] session.enters(next, step, result);
    assert(session.enters(next, step, result));
}

/// Who presses Enter at every question keeps the configuration: what was answered
/// so far is what the current configuration says, whatever the stage.
pub proof fn entering_keeps_the_configuration(wizard: Wizard, question: Question, answer: Answer)
    requires
        wizard.unchanged(),
        wizard.asks(question),
        entered(question, answer),
    ensures
        wizard.awaits(answer),
        wizard.after(answer).unchanged(),
        wizard.after(answer).stage is Accepted ==> wizard.after(answer).meant()@ == wizard.current@,
{
}

/// The wizard never touches the overrides, whatever is answered.
pub proof fn overrides_are_kept(wizard: Wizard, answer: Answer)
    ensures
        wizard.after(answer).meant().overrides == wizard.meant().overrides,
        wizard.after(answer).current == wizard.current,
{
}

/// How many questions may still come, the open one included.
pub open spec fn stages_left(stage: Stage) -> nat {
    match stage {
        Stage::Ttl => 8,
        Stage::TtlLength => 7,
        Stage::Idle => 6,
        Stage::IdleLength => 5,
        Stage::Op => 4,
        Stage::Socket => 3,
        Stage::SocketPath => 2,
        Stage::Review => 1,
        Stage::Accepted => 0,
        Stage::Declined => 0,
    }
}

/// The wizard comes to an end: every answer leaves fewer questions.
pub proof fn the_wizard_ends(wizard: Wizard, answer: Answer)
    requires
        wizard.awaits(answer),
    ensures
        stages_left(wizard.after(answer).stage) < stages_left(wizard.stage),
{
}

/// What a number of answers, one after the other, make of the wizard.
pub open spec fn after_all(wizard: Wizard, answers: Seq<Answer>) -> Wizard
    decreases answers.len(),
{
    if answers.len() == 0 {
        wizard
    } else {
        after_all(wizard, answers.drop_last()).after(answers.last())
    }
}

/// An answer changes what it is asked for and nothing else, whatever the current
/// configuration says.
pub proof fn an_answer_changes_what_it_is_asked_for(wizard: Wizard, answer: Answer)
    requires
        wizard.awaits(answer),
    ensures
        ({
            let next = wizard.after(answer);
            &&& next.current == wizard.current
            &&& next.path == wizard.path
            &&& next.default_socket == wizard.default_socket
            &&& next.home == wizard.home
            &&& wizard.stage !is Ttl && wizard.stage !is TtlLength ==> next.ttl == wizard.ttl
            &&& wizard.stage !is Idle && wizard.stage !is IdleLength ==> next.idle_timeout
                == wizard.idle_timeout
            &&& wizard.stage !is Op ==> next.op == wizard.op
            &&& wizard.stage !is Socket && wizard.stage !is SocketPath ==> next.socket
                == wizard.socket
            &&& wizard.stage is Ttl && answer == Answer::Choice(false) ==> next.ttl is None
            &&& wizard.stage is Idle && answer == Answer::Choice(false) ==> next.idle_timeout is None
            &&& wizard.stage is Socket && answer == Answer::Choice(false) ==> next.socket is None
        }),
{
}

/// Each question is followed by the next: a length or a path is asked for where the
/// choice calls for it, and only a decision to write is one.
pub proof fn questions_follow_each_other(wizard: Wizard, answer: Answer)
    requires
        wizard.awaits(answer),
    ensures
        ({
            let next = wizard.after(answer).stage;
            &&& wizard.stage is Ttl ==> (answer == Answer::Choice(true) <==> next is TtlLength) && (
            answer == Answer::Choice(false) <==> next is Idle)
            &&& wizard.stage is TtlLength ==> next is Idle
            &&& wizard.stage is Idle ==> (answer == Answer::Choice(true) <==> next is IdleLength) && (
            answer == Answer::Choice(false) <==> next is Op)
            &&& wizard.stage is IdleLength ==> next is Op
            &&& wizard.stage is Op ==> next is Socket
            &&& wizard.stage is Socket ==> (answer == Answer::Choice(true) <==> next is SocketPath)
                && (answer == Answer::Choice(false) <==> next is Review)
            &&& wizard.stage is SocketPath ==> next is Review
            &&& wizard.stage is Review ==> (answer == Answer::Decision(true) <==> next is Accepted)
                && (answer == Answer::Decision(false) <==> next is Declined)
        }),
{
}

/// The length that was answered is the one that is written, whatever was set before
/// and whatever is answered later: the lifetime of secrets is the one that the text
/// names.
pub proof fn the_answered_ttl_is_written(wizard: Wizard, s: String, later: Seq<Answer>, d: Duration)
    requires
        wizard.stage is TtlLength,
        config::lifetime(s@) == config::lifetime_read(Ok(Some(d))),
    ensures
        after_all(wizard.after(Answer::Text(s)), later).meant().ttl == Some(d),
{
    answers_are_kept(wizard.after(Answer::Text(s)), later);
}

/// The same for the idle timeout.
pub proof fn the_answered_idle_timeout_is_written(
    wizard: Wizard,
    s: String,
    later: Seq<Answer>,
    d: Duration,
)
    requires
        wizard.stage is IdleLength,
        config::lifetime(s@) == config::lifetime_read(Ok(Some(d))),
    ensures
        after_all(wizard.after(Answer::Text(s)), later).meant().idle_timeout == Some(d),
{
    answers_are_kept(wizard.after(Answer::Text(s)), later);
}

/// The `op` binary and the path of the socket that were answered are the ones that
/// are written, whatever was set before and whatever is answered later.
pub proof fn the_answered_op_and_socket_are_written(wizard: Wizard, s: String, later: Seq<Answer>)
    ensures
        wizard.stage is Op ==> after_all(wizard.after(Answer::Text(s)), later).meant().op == s,
        wizard.stage is SocketPath ==> after_all(
            wizard.after(Answer::Text(s)),
            later,
        ).meant().socket == Some(s),
{
    answers_are_kept(wizard.after(Answer::Text(s)), later);
}

/// Where no end was chosen none is written, and where the default place was chosen no
/// path is.
pub proof fn what_was_declined_is_not_written(wizard: Wizard, later: Seq<Answer>)
    ensures
        wizard.stage is Ttl ==> after_all(
            wizard.after(Answer::Choice(false)),
            later,
        ).meant().ttl is None,
        wizard.stage is Idle ==> after_all(
            wizard.after(Answer::Choice(false)),
            later,
        ).meant().idle_timeout is None,
        wizard.stage is Socket ==> after_all(
            wizard.after(Answer::Choice(false)),
            later,
        ).meant().socket is None,
{
    answers_are_kept(wizard.after(Answer::Choice(false)), later);
}

proof fn answers_are_kept(wizard: Wizard, later: Seq<Answer>)
    ensures
        ({
            let end = after_all(wizard, later);
            &&& stages_left(end.stage) <= stages_left(wizard.stage)
            &&& end.current == wizard.current
            &&& stages_left(wizard.stage) <= 6 ==> end.ttl == wizard.ttl
            &&& stages_left(wizard.stage) <= 4 ==> end.idle_timeout == wizard.idle_timeout
            &&& stages_left(wizard.stage) <= 3 ==> end.op == wizard.op
            &&& stages_left(wizard.stage) <= 1 ==> end.socket == wizard.socket
        }),
    decreases later.len(),
{
    if later.len() > 0 {
        answers_are_kept(wizard, later.drop_last());
    }
}

/// What is written is what was answered, with the overrides as they were.
pub proof fn what_was_answered_is_meant(wizard: Wizard)
    ensures
        wizard.meant().ttl == wizard.ttl,
        wizard.meant().idle_timeout == wizard.idle_timeout,
        wizard.meant().op == wizard.op,
        wizard.meant().socket == wizard.socket,
        wizard.meant().overrides == wizard.current.overrides,
{
}

/// Every choice starts on what is set now, and each text on it too: the length that is
/// set or an example, the `op` binary, the path that is set or the default one.
pub proof fn questions_start_on_what_is_set(wizard: Wizard, question: Question)
    requires
        wizard.asks(question),
    ensures
        wizard.stage is Ttl ==> question is Choice && (question->Choice_0.cursor == 1
            <==> wizard.current.ttl is Some),
        wizard.stage is Idle ==> question is Choice && (question->Choice_0.cursor == 1
            <==> wizard.current.idle_timeout is Some),
        wizard.stage is Socket ==> question is Choice && (question->Choice_0.cursor == 1
            <==> wizard.current.socket is Some),
        question matches Question::Choice(menu) ==> menu.items@.len() == 2 && menu.items@[0].0
            == false && menu.items@[1].0 == true && menu.cursor < 2,
        wizard.stage is TtlLength ==> question is Text && text::optional(question->Text_0.default)
            == Some(
            match wizard.current.ttl {
                Some(d) => config::rendered_duration(d.secs, d.nanos),
                None => "1h"@,
            },
        ) && question->Text_0.validator is Lifetime,
        wizard.stage is IdleLength ==> question is Text && text::optional(question->Text_0.default)
            == Some(
            match wizard.current.idle_timeout {
                Some(d) => config::rendered_duration(d.secs, d.nanos),
                None => "8h"@,
            },
        ) && question->Text_0.validator is Lifetime,
        wizard.stage is Op ==> question is Text && text::optional(question->Text_0.default) == Some(
            wizard.current.op@,
        ) && question->Text_0.validator is Anything,
        wizard.stage is SocketPath ==> question is Text && text::optional(question->Text_0.default)
            == Some(
            match wizard.current.socket {
                Some(s) => s@,
                None => wizard.default_socket@,
            },
        ) && question->Text_0.validator is AbsolutePath,
        question matches Question::Text(field) ==> field.value@.len() == 0,
        wizard.stage is Review ==> question is Decision && question->Decision_0.yes,
{
}

/// An answer passes its check exactly where it names a lifetime with an end, or begins
/// with `/`; where anything will do, all pass.
pub proof fn answers_pass_by_what_they_name(answer: Seq<char>)
    ensures
        Check::Anything.complaint(answer) is None,
        Check::Lifetime.complaint(answer) is None <==> (config::lifetime(answer) matches Ok(d)
            && d is Some),
        Check::Lifetime.complaint(answer) matches Some(message) ==> message
            == "use a duration like 30m, 2h or 1d"@,
        Check::AbsolutePath.complaint(answer) is None <==> answer.len() > 0 && answer[0] == '/',
        Check::AbsolutePath.complaint(answer) matches Some(message) ==> message
            == "give an absolute path"@,
        given(answer) == match config::lifetime(answer) {
            Ok(d) => d,
            Err(_) => None,
        },
{
}

/// A path that begins with the home directory is shown with `~` for it and the rest as
/// it is; every other path is shown as it is.
pub proof fn only_home_is_shortened(home: Seq<char>, rest: Seq<char>, path: Seq<char>)
    ensures
        home.len() > 0 ==> shortened(home + rest, Some(home)) == "~"@ + rest,
        !home.is_prefix_of(path) ==> shortened(path, Some(home)) == path,
        shortened(path, Some(Seq::empty())) == path,
        shortened(path, None) == path,
{
    assert((home + rest).subrange(0, home.len() as int) =~= home);
    assert((home + rest).skip(home.len() as int) =~= rest);
}

/// The review shows each answer in full, behind its label in a column of its own.
pub proof fn the_review_shows_every_answer(wizard: Wizard, chosen: Option<Seq<char>>, colors: bool)
    ensures
        wizard.reviewed(chosen, colors) == style::painted(
            text::padded("Secrets live"@, 14),
            Look::Dim,
            colors,
        ) + (match wizard.ttl {
            Some(d) => config::rendered_duration(d.secs, d.nanos),
            None => "until the daemon exits"@,
        }) + "\n"@ + style::painted(text::padded("Daemon idles"@, 14), Look::Dim, colors) + (
        match wizard.idle_timeout {
            Some(d) => config::rendered_duration(d.secs, d.nanos),
            None => "forever"@,
        }) + "\n"@ + style::painted(text::padded("op binary"@, 14), Look::Dim, colors) + wizard.op@
            + "\n"@ + style::painted(text::padded("Socket"@, 14), Look::Dim, colors) + (
        match chosen {
            Some(s) => s,
            None => match wizard.socket {
                Some(s) => s@,
                None => wizard.default_socket@,
            },
        }),
{
}

/// Two sockets are the same where neither is set, or both are and their paths are
/// equal.
pub proof fn sockets_are_told_apart(a: Seq<char>, b: Seq<char>)
    ensures
        same_socket(None, None),
        !same_socket(Some(a), None),
        !same_socket(None, Some(b)),
        same_socket(Some(a), Some(b)) <==> paths_equal(a, b),
{
}

/// Any answer of the kind that is asked for is taken.
pub proof fn any_answer_of_its_kind_is_taken(wizard: Wizard, yes: bool, s: String)
    ensures
        wizard.stage is Ttl || wizard.stage is Idle || wizard.stage is Socket ==> wizard.awaits(
            Answer::Choice(yes),
        ),
        wizard.stage is TtlLength || wizard.stage is IdleLength || wizard.stage is Op
            || wizard.stage is SocketPath ==> wizard.awaits(Answer::Text(s)),
        wizard.stage is Review ==> wizard.awaits(Answer::Decision(yes)),
{
}

/// The questions name what they are about: the last one the file that would be
/// written, and the one about the socket its default place.
pub proof fn questions_name_what_they_are_about(wizard: Wizard, question: Question)
    requires
        wizard.asks(question),
    ensures
        wizard.stage is Review ==> question->Decision_0.question@ == "Write "@ + shortened(
            wizard.path@,
            text::optional(wizard.home),
        ) + "?"@,
        wizard.stage is Socket ==> question->Choice_0.items@[0].2@ == shortened(
            wizard.default_socket@,
            text::optional(wizard.home),
        ),
        wizard.stage is Ttl ==> question->Choice_0.question@ == "How long should a cached secret live?"@,
        wizard.stage is Idle ==> question->Choice_0.question@
            == "Should the daemon shut down after sitting idle?"@,
        wizard.stage is Socket ==> question->Choice_0.question@
            == "Where should the daemon's socket live?"@,
        wizard.stage is TtlLength ==> text::optional(question->Text_0.placeholder) == Some(
            "e.g. "@ + "1h"@ + ", 30m, 2d"@,
        ),
        wizard.stage is IdleLength ==> text::optional(question->Text_0.placeholder) == Some(
            "e.g. "@ + "8h"@ + ", 30m, 2d"@,
        ),
{
}

/// A wizard is in range where its current configuration and its lifetimes are.
pub proof fn a_wizard_in_range(wizard: Wizard)
    ensures
        wizard.wf() <==> wizard.current.wf() && (wizard.ttl matches Some(d) ==> d.nanos
            < 1_000_000_000) && (wizard.idle_timeout matches Some(d) ==> d.nanos < 1_000_000_000),
{
}

/// The choices are told apart by their names and hints.
pub proof fn choices_have_their_names(wizard: Wizard, question: Question)
    requires
        wizard.asks(question),
    ensures
        wizard.stage is Ttl ==> ({
            let items = question->Choice_0.items@;
            &&& items[0].1@ == "Until the daemon exits"@
            &&& items[0].2@ == "the default; nothing ever goes stale on its own"@
            &&& items[1].1@ == "For a fixed duration"@
            &&& items[1].2@ == "re-read from 1Password once it lapses"@
        }),
        wizard.stage is Idle ==> ({
            let items = question->Choice_0.items@;
            &&& items[0].1@ == "No, keep it running"@
            &&& items[0].2@ == "until op-cache stop, or the machine reboots"@
            &&& items[1].1@ == "Yes, after a quiet period"@
            &&& items[1].2@ == "drops every secret from memory when it exits"@
        }),
        wizard.stage is Socket ==> ({
            let items = question->Choice_0.items@;
            &&& items[0].1@ == "The default location"@
            &&& items[1].1@ == "A path of my choosing"@
            &&& items[1].2@ == ""@
        }),
        wizard.stage is TtlLength || wizard.stage is IdleLength ==> question->Text_0.question@
            == "For how long?"@,
        wizard.stage is Op ==> question->Text_0.question@ == "Which op binary should it call?"@
            && question->Text_0.placeholder is None,
        wizard.stage is SocketPath ==> question->Text_0.question@ == "Socket path?"@
            && question->Text_0.placeholder is None,
{
}

/// The verdict on an answer is what its check says of it.
pub proof fn answers_are_judged_by_their_check(check: Check, answer: String, verdict: Result<(), String>)
    ensures
        check.handles(answer),
        check.judges(answer, verdict) ==> (verdict is Ok <==> check.complaint(answer@) is None),
        check.judges(answer, verdict) ==> (verdict matches Err(message) ==> check.complaint(answer@)
            == Some(message@)),
{
}

} // verus!
