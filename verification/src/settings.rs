//! The settings as the configuration file spells them: lifetimes in words.

use vstd::prelude::*;

use crate::config::Config;
use crate::config;
use crate::overrides::OverrideError;
use crate::overrides::Refusal;
use crate::overrides;
use crate::text;
use crate::time::Duration;

verus! {

/// What the configuration file says, field by field.
#[derive(Debug, PartialEq, Eq)]
pub struct Settings {
    pub ttl: String,
    pub idle_timeout: String,
    pub op: String,
    pub socket: Option<String>,
    pub overrides: Vec<(String, String)>,
}

/// What settings hold.
#[verifier::ext_equal]
pub struct Spelled {
    pub ttl: Seq<char>,
    pub idle_timeout: Seq<char>,
    pub op: Seq<char>,
    pub socket: Option<Seq<char>>,
    pub overrides: Seq<(Seq<char>, Seq<char>)>,
}

/// What a configuration holds.
#[verifier::ext_equal]
pub struct Meant {
    pub ttl: Option<Duration>,
    pub idle_timeout: Option<Duration>,
    pub op: Seq<char>,
    pub socket: Option<Seq<char>>,
    pub overrides: Seq<(Seq<char>, Option<Duration>)>,
}

/// Why settings are refused.
#[derive(Debug, PartialEq, Eq)]
pub enum SettingsError {
    /// A lifetime cannot be understood, and why.
    BadLifetime(String),
    /// The overrides are wrong.
    BadOverride(OverrideError),
}

/// Why settings are refused, by what the strings hold.
pub enum Fault {
    BadLifetime(Seq<char>),
    BadOverride(Refusal),
}

impl View for SettingsError {
    type V = Fault;

    open spec fn view(&self) -> Fault {
        match self {
            SettingsError::BadLifetime(s) => Fault::BadLifetime(s@),
            SettingsError::BadOverride(e) => Fault::BadOverride(e@),
        }
    }
}

impl View for Settings {
    type V = Spelled;

    open spec fn view(&self) -> Spelled {
        Spelled {
            ttl: self.ttl@,
            idle_timeout: self.idle_timeout@,
            op: self.op@,
            socket: text::optional(self.socket),
            overrides: text::pair_views(self.overrides@),
        }
    }
}

impl View for Config {
    type V = Meant;

    open spec fn view(&self) -> Meant {
        Meant {
            ttl: self.ttl,
            idle_timeout: self.idle_timeout,
            op: self.op@,
            socket: text::optional(self.socket),
            overrides: overrides::override_views(self.overrides@),
        }
    }
}

/// What one lifetime says.
pub open spec fn understood_lifetime(s: Seq<char>) -> Result<Option<Duration>, Fault> {
    match config::lifetime(s) {
        Ok(d) => Ok(d),
        Err(message) => Err(Fault::BadLifetime(message)),
    }
}

/// The configuration that settings stand for, or what is wrong with the first
/// field that is wrong.
pub open spec fn understood(s: Spelled) -> Result<Meant, Fault> {
    match understood_lifetime(s.ttl) {
        Err(e) => Err(e),
        Ok(ttl) => match understood_lifetime(s.idle_timeout) {
            Err(e) => Err(e),
            Ok(idle_timeout) => match overrides::read_all(s.overrides) {
                Err(e) => Err(Fault::BadOverride(e)),
                Ok(map) => Ok(
                    Meant { ttl, idle_timeout, op: s.op, socket: s.socket, overrides: map },
                ),
            },
        },
    }
}

/// A configuration whose settings can be read again: every override is for a
/// reference.
pub open spec fn storable(config: Config) -> bool {
    forall|i: int|
        0 <= i < config.overrides@.len() ==> overrides::is_reference(
            (#[trigger] config.overrides@[i]).0@,
        )
}

fn understand_lifetime(s: &String) -> (r: Result<Option<Duration>, SettingsError>)
    ensures
        match r {
            Ok(d) => understood_lifetime(s@) == Ok::<Option<Duration>, Fault>(d) && config::lifetime_wf(d),
            Err(e) => understood_lifetime(s@) == Err::<Option<Duration>, Fault>(e@),
        },
{
    match config::parse_lifetime(s.as_str()) {
        Err(message) => Err(SettingsError::BadLifetime(message)),
        Ok(d) => Ok(d),
    }
}

impl Config {
    /// The settings that stand for this configuration. Read again they give the
    /// same configuration.
    pub fn to_settings(&self) -> (r: Settings)
        requires
            self.wf(),
        ensures
            r@.ttl == config::written_lifetime(self.ttl, "until-exit"@),
            r@.idle_timeout == config::written_lifetime(self.idle_timeout, "never"@),
            r@.op == self@.op,
            r@.socket == self@.socket,
            r@.overrides.len() == self@.overrides.len(),
            forall|i: int|
                0 <= i < r@.overrides.len() ==> #[trigger] r@.overrides[i] == (
                    self@.overrides[i].0,
                    config::written_lifetime(self@.overrides[i].1, "until-exit"@),
                ),
            storable(*self) ==> understood(r@) == Ok::<Meant, Fault>(self@),
    {
        proof {
            config::until_exit_reads_as_endless();
        }
        let socket = match &self.socket {
            Some(s) => Some(s.clone()),
            None => None,
        };
        let r = Settings {
            ttl: config::format_lifetime(self.ttl, "until-exit"),
            idle_timeout: config::format_lifetime(self.idle_timeout, "never"),
            op: self.op.clone(),
            socket,
            overrides: overrides::serialize(&self.overrides),
        };
        assert forall|i: int| 0 <= i < r@.overrides.len() implies #[trigger] r@.overrides[i] == (
            self@.overrides[i].0,
            config::written_lifetime(self@.overrides[i].1, "until-exit"@),
        ) by {
            assert(r.overrides@[i].0@ == self.overrides@[i].0@);
        }
        r
    }

    /// The configuration that a file holds, or the default one where there is no
    /// file.
    pub fn load(found: &Option<Settings>) -> (r: Result<Config, SettingsError>)
        ensures
            match found {
                Some(settings) => match r {
                    Ok(config) => understood(settings@) == Ok::<Meant, Fault>(config@) && (
                    crate::cache::ascending(
                        Seq::new(settings.overrides@.len(), |i: int| settings.overrides@[i].0@),
                    ) ==> config.wf()),
                    Err(e) => understood(settings@) == Err::<Meant, Fault>(e@),
                },
                None => r is Ok && r.unwrap().wf() && r.unwrap()@ == (Meant {
                    ttl: None,
                    idle_timeout: None,
                    op: "op"@,
                    socket: None,
                    overrides: Seq::empty(),
                }),
            },
    {
        match found {
            Some(settings) => Config::from_settings(settings),
            None => Ok(Config::default()),
        }
    }

    /// The configuration that settings stand for.
    pub fn from_settings(settings: &Settings) -> (r: Result<Config, SettingsError>)
        ensures
            match r {
                Ok(config) => understood(settings@) == Ok::<Meant, Fault>(config@),
                Err(e) => understood(settings@) == Err::<Meant, Fault>(e@),
            },
            r matches Ok(config) ==> (crate::cache::ascending(
                Seq::new(settings.overrides@.len(), |i: int| settings.overrides@[i].0@),
            ) ==> config.wf()),
    {
        let ttl = match understand_lifetime(&settings.ttl) {
            Ok(d) => d,
            Err(e) => return Err(e),
        };
        let idle_timeout = match understand_lifetime(&settings.idle_timeout) {
            Ok(d) => d,
            Err(e) => return Err(e),
        };
        let map = match overrides::deserialize(&settings.overrides) {
            Ok(map) => map,
            Err(e) => return Err(SettingsError::BadOverride(e)),
        };
        let socket = match &settings.socket {
            Some(s) => Some(s.clone()),
            None => None,
        };
        proof {
            if crate::cache::ascending(
                Seq::new(settings.overrides@.len(), |i: int| settings.overrides@[i].0@),
            ) {
                overrides::read_in_order(settings.overrides@, map@);
            }
        }
        Ok(Config { ttl, idle_timeout, op: settings.op.clone(), socket, overrides: map })
    }
}

/// Settings are understood if and only if both lifetimes and all the overrides are.
/// The configuration then has every field as it was spelled.
pub proof fn every_field_is_understood(s: Spelled)
    ensures
        understood(s) is Ok <==> config::lifetime(s.ttl) is Ok && config::lifetime(s.idle_timeout)
            is Ok && overrides::read_all(s.overrides) is Ok,
        understood(s) matches Ok(meant) ==> {
            &&& config::lifetime(s.ttl) == config::lifetime_read(Ok(meant.ttl))
            &&& config::lifetime(s.idle_timeout) == config::lifetime_read(Ok(meant.idle_timeout))
            &&& meant.op == s.op
            &&& meant.socket == s.socket
            &&& overrides::read_all(s.overrides) matches Ok(map) && map == meant.overrides
        },
        config::lifetime(s.ttl) matches Err(message) ==> (understood(s) matches Err(
            Fault::BadLifetime(m),
        ) && m == message),
{
}

/// A configuration holds what its fields hold, each override in its place.
pub proof fn a_configuration_holds_its_fields(config: Config, i: int)
    ensures
        config@.ttl == config.ttl,
        config@.idle_timeout == config.idle_timeout,
        config@.op == config.op@,
        config.socket is None <==> config@.socket is None,
        config.socket matches Some(s) ==> config@.socket == Some(s@),
        config@.overrides.len() == config.overrides@.len(),
        0 <= i < config.overrides@.len() ==> config@.overrides[i] == (
            config.overrides@[i].0@,
            config.overrides@[i].1,
        ),
{
}

/// Settings are read again for every configuration whose overrides are for references.
pub proof fn every_configuration_of_references_can_be_stored(config: Config)
    ensures
        storable(config) <==> forall|i: int|
            0 <= i < config.overrides@.len() ==> "op://"@.is_prefix_of(
                (#[trigger] config.overrides@[i]).0@,
            ),
{
}

/// Settings hold what their fields spell.
pub proof fn settings_hold_their_fields(s: Settings, i: int)
    ensures
        s@.ttl == s.ttl@,
        s@.idle_timeout == s.idle_timeout@,
        s@.op == s.op@,
        s@.socket == text::optional(s.socket),
        s@.overrides.len() == s.overrides@.len(),
        0 <= i < s.overrides@.len() ==> s@.overrides[i] == (s.overrides@[i].0@, s.overrides@[i].1@),
{
}

/// The lifetimes are looked at before the overrides, and the first fault is told.
pub proof fn the_first_fault_is_told(s: Spelled)
    ensures
        config::lifetime(s.ttl) is Ok ==> (config::lifetime(s.idle_timeout) matches Err(message)
            ==> understood(s) == Err::<Meant, Fault>(Fault::BadLifetime(message))),
        config::lifetime(s.ttl) is Ok && config::lifetime(s.idle_timeout) is Ok ==> (
        overrides::read_all(s.overrides) matches Err(e) ==> understood(s) == Err::<Meant, Fault>(
            Fault::BadOverride(e),
        )),
{
}

} // verus!
