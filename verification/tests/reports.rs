use op_cache::cli::Command;
use op_cache::protocol::{Entry, Status};
use op_cache::report;
use op_cache::time::Duration;

fn entry(key: &str, preview: &str, expires_in_secs: Option<u64>) -> Entry {
    Entry { key: key.to_string(), preview: preview.to_string(), expires_in_secs }
}

#[test]
fn the_status_tells_where_things_are() {
    assert_eq!(
        report::settings("/c.toml", "/d.sock", None),
        "config   /c.toml\nsocket   /d.sock\nttl      until the daemon exits\n"
    );
    assert_eq!(
        report::settings("/c.toml", "/d.sock", Some(Duration::from_secs(5400))),
        "config   /c.toml\nsocket   /d.sock\nttl      1h 30m\n"
    );
    assert_eq!(report::not_running(), "daemon   not running\n");
}

#[test]
fn the_status_tells_how_the_daemon_is_doing() {
    let status = Status { pid: 123, uptime_secs: 61, idle_timeout_secs: None, cached: 0 };
    assert_eq!(
        report::running(&status, &vec![]),
        "daemon   pid 123, up 1m 1s, idles out never\ncached   0\n"
    );
    let status = Status { pid: 1, uptime_secs: 0, idle_timeout_secs: Some(28800), cached: 2 };
    let entries = vec![
        entry("--account\u{1f}work\u{1f}op://v/i/f", "a••••", Some(59)),
        entry("op://v/keep/f", "b••••", None),
    ];
    assert_eq!(
        report::running(&status, &entries),
        "daemon   pid 1, up 0s, idles out after 8h\ncached   2\n  --account work op://v/i/f  expires in 59s\n  op://v/keep/f\n"
    );
}

#[test]
fn an_inspection_lines_up() {
    let entries = vec![
        entry("op://v/i/f", "corr••••", Some(3600)),
        entry("a\u{1f}b", "••••", None),
    ];
    assert_eq!(
        report::inspect(&entries),
        "REFERENCE   VALUE     EXPIRES\n\
         op://v/i/f  corr••••  in 1h\n\
         a b         ••••      when the daemon exits\n"
    );
    // The first column is as wide as the bytes of the longest key.
    assert_eq!(
        report::inspect(&vec![entry("ééééé", "•", None)]),
        "REFERENCE   VALUE  EXPIRES\nééééé       •      when the daemon exits\n"
    );
    assert_eq!(report::inspect(&vec![]), "op-cache: nothing cached\n");
}

#[test]
fn commands_tell_what_came_of_them() {
    assert_eq!(report::sent(Command::Clear, true), "op-cache: cleared\n");
    assert_eq!(report::sent(Command::Clear, false), "op-cache: nothing to clear\n");
    assert_eq!(report::sent(Command::Stop, true), "op-cache: stopped\n");
    assert_eq!(report::sent(Command::Stop, false), "op-cache: not running\n");
    assert_eq!(report::sent(Command::Inspect, false), "op-cache: not running\n");
    assert_eq!(
        report::needs_arguments("read"),
        "op-cache: read needs arguments; see op-cache --help\n"
    );
    assert_eq!(report::announce("x"), "op-cache: x\n");
}
