use op_cache::config::{
    config_path, default_socket_path, format_lifetime, home, parse_lifetime, Config, TOO_LARGE,
};
use op_cache::overrides::{deserialize, serialize, OverrideError};
use op_cache::settings::{Settings, SettingsError};
use op_cache::spans::{is_countable, BRIM};
use op_cache::time::Duration;

fn text_of(value: &toml::Value) -> Result<String, String> {
    match value.as_str() {
        Some(s) => Ok(s.to_string()),
        None => Err("not a string".to_string()),
    }
}

/// Reads a configuration file: what it does not say is as by default, and nothing
/// but the known fields may stand in it.
fn from_str(text: &str) -> Result<Config, String> {
    let table = text.parse::<toml::Table>().map_err(|e| e.to_string())?;
    let mut settings = Config::default().to_settings();
    for (key, value) in &table {
        match key.as_str() {
            "ttl" => settings.ttl = text_of(value)?,
            "idle_timeout" => settings.idle_timeout = text_of(value)?,
            "op" => settings.op = text_of(value)?,
            "socket" => settings.socket = Some(text_of(value)?),
            "overrides" => {
                let map = value.as_table().ok_or("not a table")?;
                let mut pairs = Vec::new();
                for (k, v) in map {
                    pairs.push((k.clone(), text_of(v)?));
                }
                pairs.sort();
                settings.overrides = pairs;
            }
            _ => return Err(format!("unknown field {key}")),
        }
    }
    Config::from_settings(&settings).map_err(|e| format!("{e:?}"))
}

/// Writes a configuration file, without the overrides where there are none.
fn to_string(config: &Config) -> String {
    let settings = config.to_settings();
    let mut table = toml::Table::new();
    table.insert("ttl".to_string(), toml::Value::String(settings.ttl));
    table.insert("idle_timeout".to_string(), toml::Value::String(settings.idle_timeout));
    table.insert("op".to_string(), toml::Value::String(settings.op));
    if let Some(socket) = settings.socket {
        table.insert("socket".to_string(), toml::Value::String(socket));
    }
    if !settings.overrides.is_empty() {
        let mut map = toml::Table::new();
        for (k, v) in settings.overrides {
            map.insert(k, toml::Value::String(v));
        }
        table.insert("overrides".to_string(), toml::Value::Table(map));
    }
    toml::to_string(&table).unwrap()
}

fn args(list: &[&str]) -> Vec<String> {
    list.iter().map(|s| s.to_string()).collect()
}

fn path(s: &str) -> Option<Vec<u8>> {
    Some(s.as_bytes().to_vec())
}

#[test]
fn defaults_round_trip_through_toml() {
    let text = to_string(&Config::default());
    assert!(text.contains("ttl = \"until-exit\""));
    assert!(text.contains("idle_timeout = \"never\""));
    assert_eq!(from_str(&text).unwrap(), Config::default());
}

#[test]
fn durations_parse_and_render() {
    let cfg: Config = from_str("ttl = \"90m\"\nidle_timeout = \"2h\"\nop = \"/opt/op\"").unwrap();
    assert_eq!(cfg.ttl, Some(Duration::from_secs(5400)));
    assert_eq!(cfg.idle_timeout, Some(Duration::from_secs(7200)));
    assert_eq!(cfg.op, "/opt/op");
    assert!(to_string(&cfg).contains("ttl = \"1h 30m\""));
    assert!(from_str("ttl = \"soon\"").is_err());
    assert!(from_str("bogus = 1").is_err());
}

#[test]
fn the_most_specific_override_wins() {
    let cfg: Config = from_str(
        r#"
ttl = "1h"
[overrides]
"op://vault/" = "5m"
"op://vault/item/field" = "until-exit"
"#,
    )
    .unwrap();
    let hour = Some(Duration::from_secs(3600));
    assert_eq!(cfg.ttl_for(&args(&["op://other/item/field"])), hour);
    assert_eq!(
        cfg.ttl_for(&args(&["--account", "work", "op://vault/x/y"])),
        Some(Duration::from_secs(300))
    );
    assert_eq!(cfg.ttl_for(&args(&["op://vault/item/field"])), None);
    assert_eq!(cfg.ttl_for(&args(&["op://vault"])), hour);
    assert!(to_string(&cfg).contains("\"op://vault/item/field\" = \"until-exit\""));
    assert!(!to_string(&Config::default()).contains("overrides"));
    assert!(from_str("[overrides]\nnope = \"5m\"").is_err());
}

#[test]
fn of_equally_specific_overrides_the_later_argument_decides() {
    let cfg = from_str("[overrides]\n\"op://a/\" = \"1m\"\n\"op://b/\" = \"2m\"\n").unwrap();
    assert_eq!(
        cfg.ttl_for(&args(&["op://a/x", "op://b/x"])),
        Some(Duration::from_secs(120))
    );
    assert_eq!(
        cfg.ttl_for(&args(&["op://b/x", "op://a/x"])),
        Some(Duration::from_secs(60))
    );
    assert_eq!(cfg.ttl_for(&[]), None);
}

#[test]
fn socket_env_overrides_config() {
    let cfg = Config {
        socket: Some("/from/config.sock".into()),
        ..Config::default()
    };
    let default = b"/run/op-cache.sock".to_vec();
    assert_eq!(cfg.socket_path(None, default.clone()), b"/from/config.sock".to_vec());
    assert_eq!(
        cfg.socket_path(path("/from/env.sock"), default.clone()),
        b"/from/env.sock".to_vec()
    );
    assert_eq!(Config::default().socket_path(None, default.clone()), default);
}

#[test]
fn the_configuration_file_is_found() {
    assert_eq!(
        config_path(path("/c.toml"), path("/xdg"), path("/home/me")),
        b"/c.toml".to_vec()
    );
    assert_eq!(
        config_path(None, path("/xdg"), path("/home/me")),
        b"/xdg/op-cache/config.toml".to_vec()
    );
    // A relative directory does not count.
    assert_eq!(
        config_path(None, path("xdg"), path("/home/me/")),
        b"/home/me/.config/op-cache/config.toml".to_vec()
    );
    assert_eq!(
        config_path(None, None, None),
        b"/.config/op-cache/config.toml".to_vec()
    );
    assert_eq!(home(None), b"/".to_vec());
}

#[test]
fn the_socket_has_a_default_place() {
    assert_eq!(
        default_socket_path(path("/run/user/7"), path("/var/tmp"), 7),
        b"/run/user/7/op-cache.sock".to_vec()
    );
    assert_eq!(
        default_socket_path(None, path("/var/tmp/"), 1000),
        b"/var/tmp/op-cache-1000.sock".to_vec()
    );
    assert_eq!(default_socket_path(None, None, 0), b"/tmp/op-cache-0.sock".to_vec());
}

#[test]
fn words_for_no_end_are_read() {
    for word in ["", "never", "forever", "until-exit", "  never \n"] {
        assert_eq!(parse_lifetime(word), Ok(None));
    }
    assert_eq!(parse_lifetime(" 1h 30m "), Ok(Some(Duration::from_secs(5400))));
    assert_eq!(parse_lifetime("250ms"), Ok(Some(Duration { secs: 0, nanos: 250_000_000 })));
    assert_eq!(
        parse_lifetime("soon"),
        Err(humantime::parse_duration("soon").unwrap_err().to_string())
    );
}

/// What humantime says of a text, in the library's types.
fn humantime_says(s: &str) -> Result<Option<Duration>, String> {
    humantime::parse_duration(s)
        .map(|d| Some(Duration { secs: d.as_secs(), nanos: d.subsec_nanos() }))
        .map_err(|e| e.to_string())
}

#[test]
fn large_numbers_are_read_whatever_their_unit() {
    let secs = |n: u64| Ok(Some(Duration::from_secs(n)));
    assert_eq!(parse_lifetime("600000000000ns 1s"), secs(601));
    assert_eq!(parse_lifetime("1y 600000000000ns"), secs(31_558_200));
    assert_eq!(parse_lifetime("0.600000000000h"), secs(2160));
    assert_eq!(parse_lifetime("600000000000ms"), secs(600_000_000));
    assert_eq!(parse_lifetime("584542046090.5y"), secs(18_446_744_073_705_562_800));
    assert_eq!(parse_lifetime("18446744073709551615s"), secs(u64::MAX));
    assert_eq!(parse_lifetime("18446744073709551614s 1000000000ns"), secs(u64::MAX));
    assert_eq!(
        parse_lifetime("18446744073709551615s 999999999ns"),
        Ok(Some(Duration { secs: u64::MAX, nanos: 999_999_999 }))
    );
}

#[test]
fn a_sum_just_out_of_range_is_too_large() {
    let too_large = humantime_says("99999999999999999999y");
    assert_eq!(too_large, Err(TOO_LARGE.to_string()));
    assert_eq!(parse_lifetime("99999999999999999999y"), too_large);
    assert_eq!(parse_lifetime("18446744073709551615s 1s"), too_large);
    assert_eq!(humantime_says("18446744073709551615s 1s"), too_large);
    for s in [
        "18446744073709551615s 1000000000ns",
        "18446744073709551615s 999999999ns 1ns",
        "18446744073709551615s 1000ms",
        "18446744073709551614s 999999us 1us 1000ms",
        "1000ms 18446744073709551615s",
        "18446744073709551615s 0.5s 500ms",
        "18446744073709551615s500ms500ms later",
    ] {
        assert!(!is_countable(s), "{s}");
        assert_eq!(parse_lifetime(s), too_large, "{s}");
    }
    for s in [
        "18446744073709551615s 1001ms",
        "18446744073709551615s 999ms",
        "x 18446744073709551615s 1000ms",
        "1.h 18446744073709551615s 1000ms",
        "18446744073709551615s 1000",
        "18446744073709551615s 1000 parsecs",
    ] {
        assert!(is_countable(s), "{s}");
        assert_eq!(parse_lifetime(s), humantime_says(s), "{s}");
    }
}

#[test]
fn every_unit_is_counted() {
    for (unit, nanos) in [
        ("nanos", 1),
        ("nsec", 1),
        ("ns", 1),
        ("usec", 1_000),
        ("us", 1_000),
        ("µs", 1_000),
        ("millis", 1_000_000),
        ("msec", 1_000_000),
        ("ms", 1_000_000),
        ("seconds", 1_000_000_000),
        ("second", 1_000_000_000),
        ("secs", 1_000_000_000),
        ("sec", 1_000_000_000),
        ("s", 1_000_000_000),
        ("minutes", 60_000_000_000),
        ("minute", 60_000_000_000),
        ("min", 60_000_000_000),
        ("mins", 60_000_000_000),
        ("m", 60_000_000_000),
        ("hours", 3_600_000_000_000),
        ("hour", 3_600_000_000_000),
        ("hr", 3_600_000_000_000),
        ("hrs", 3_600_000_000_000),
        ("h", 3_600_000_000_000),
        ("days", 86_400_000_000_000),
        ("day", 86_400_000_000_000),
        ("d", 86_400_000_000_000),
        ("weeks", 604_800_000_000_000),
        ("week", 604_800_000_000_000),
        ("wk", 604_800_000_000_000),
        ("wks", 604_800_000_000_000),
        ("w", 604_800_000_000_000),
        ("months", 2_630_016_000_000_000),
        ("month", 2_630_016_000_000_000),
        ("M", 2_630_016_000_000_000),
        ("years", 31_557_600_000_000_000),
        ("year", 31_557_600_000_000_000),
        ("yr", 31_557_600_000_000_000),
        ("yrs", 31_557_600_000_000_000),
        ("y", 31_557_600_000_000_000u128),
    ] {
        let once = format!("3{unit}");
        let d = humantime::parse_duration(&once).unwrap();
        assert_eq!(d.as_nanos(), 3 * nanos, "{unit}");
        // So many seconds and nanoseconds more come to the brim exactly.
        let rest = BRIM - 3 * nanos;
        let (secs, below) = ((rest - 1) / 1_000_000_000, (rest - 1) % 1_000_000_000);
        let full = format!("{once} {secs}s {}ns", below + 1);
        assert!(!is_countable(&full), "{full}");
        let under = format!("{once} {secs}s {below}ns");
        assert!(is_countable(&under), "{under}");
        assert_eq!(parse_lifetime(&under), humantime_says(&under), "{under}");
        assert!(parse_lifetime(&under).is_ok(), "{under}");
    }
}

#[test]
fn texts_are_read_as_humantime_reads_them() {
    let pieces = [
        "0", "1", "7", "60", "999", "1000", "600000000000", "18446744073709551615", ".", ".5",
        ".25", ".000000001", " ", " ", "\t", "ns", "us", "µs", "ms", "s", "sec", "m", "min", "h",
        "d", "w", "M", "y", "years", "x", "-", "é",
    ];
    let mut seed: u64 = 12345;
    let mut understood = 0;
    for round in 0..60_000 {
        let mut s = String::new();
        for _ in 0..(1 + round % 7) {
            seed = seed.wrapping_mul(6364136223846793005).wrapping_add(1442695040888963407);
            s.push_str(pieces[(seed >> 33) as usize % pieces.len()]);
        }
        let t = s.trim();
        if t.is_empty() {
            continue;
        }
        if is_countable(t) {
            assert_eq!(parse_lifetime(&s), humantime_says(t), "{s:?}");
        } else {
            assert_eq!(parse_lifetime(&s), Err(TOO_LARGE.to_string()), "{s:?}");
        }
        if parse_lifetime(&s).is_ok() {
            understood += 1;
        }
    }
    assert!(understood > 1000);
}

#[test]
fn lifetimes_are_written_and_read_back() {
    let d = Some(Duration { secs: 90061, nanos: 1_002_003 });
    let s = format_lifetime(d, "never");
    assert_eq!(s, "1day 1h 1m 1s 1ms 2us 3ns");
    assert_eq!(parse_lifetime(&s), Ok(d));
    assert_eq!(format_lifetime(None, "never"), "never");
    assert_eq!(format_lifetime(Some(Duration::from_secs(0)), "never"), "0s");
    for secs in [0, 1, 59, 60, 3600, 86400, 2_630_016, 31_557_600, 1 << 40] {
        let d = Some(Duration { secs, nanos: 999_999_999 });
        assert_eq!(parse_lifetime(&format_lifetime(d, "")), Ok(d));
    }
    for nanos in [0, 1, 999_999_999] {
        let d = Some(Duration { secs: u64::MAX, nanos });
        assert_eq!(parse_lifetime(&format_lifetime(d, "")), Ok(d));
    }
}

#[test]
fn settings_are_refused_field_by_field() {
    let good = || Config::default().to_settings();
    let bad = Settings { ttl: "soon".into(), ..good() };
    assert!(matches!(Config::from_settings(&bad), Err(SettingsError::BadLifetime(_))));
    let bad = Settings { idle_timeout: "18446744073709551615s 1000ms".into(), ..good() };
    assert_eq!(
        Config::from_settings(&bad),
        Err(SettingsError::BadLifetime(TOO_LARGE.into()))
    );
    let fine = Settings { ttl: "600000000000ns 1s".into(), ..good() };
    assert_eq!(
        Config::load(&Some(fine)).unwrap().ttl,
        Some(Duration::from_secs(601))
    );
    let bad = Settings { overrides: vec![("no\"pe".into(), "5m".into())], ..good() };
    assert_eq!(
        Config::from_settings(&bad),
        Err(SettingsError::BadOverride(OverrideError::NotAReference(
            "override \"no\\\"pe\" should be an op:// reference".into()
        )))
    );
    let bad = Settings { overrides: vec![("op://a".into(), "x".into())], ..good() };
    assert!(matches!(
        Config::from_settings(&bad),
        Err(SettingsError::BadOverride(OverrideError::BadLifetime(_)))
    ));
    let fine = vec![("op://a".to_string(), "600000000000ns 1s".to_string())];
    assert_eq!(
        deserialize(&fine),
        Ok(vec![("op://a".to_string(), Some(Duration::from_secs(601)))])
    );
}

#[test]
fn without_a_file_the_defaults_hold() {
    assert_eq!(Config::load(&None), Ok(Config::default()));
    let settings = Settings { op: "/opt/op".into(), ..Config::default().to_settings() };
    assert_eq!(Config::load(&Some(settings)).unwrap().op, "/opt/op");
}

#[test]
fn overrides_round_trip() {
    let map = vec![
        ("op://a/".to_string(), Some(Duration::from_secs(300))),
        ("op://b".to_string(), None),
    ];
    let pairs = serialize(&map);
    assert_eq!(
        pairs,
        vec![
            ("op://a/".to_string(), "5m".to_string()),
            ("op://b".to_string(), "until-exit".to_string()),
        ]
    );
    assert_eq!(deserialize(&pairs), Ok(map));
}

#[test]
fn a_whole_configuration_round_trips() {
    let config = Config {
        ttl: Some(Duration::from_secs(90)),
        idle_timeout: Some(Duration::from_secs(28_800)),
        op: "op-2".into(),
        socket: Some("/s".into()),
        overrides: vec![("op://v/".into(), None)],
    };
    assert_eq!(Config::from_settings(&config.to_settings()), Ok(config.clone()));
    assert_eq!(from_str(&to_string(&config)).unwrap(), config);
}
