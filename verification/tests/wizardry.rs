use op_cache::config::Config;
use op_cache::prompt::{Key, Phase, Step, Widget};
use op_cache::time::Duration;
use op_cache::wizard::{
    check_lifetime, check_socket, daemon_affected, display_path, given_lifetime, heading, Answer,
    Question, Stage, Wizard,
};

fn wizard(current: Config) -> Wizard {
    Wizard::new(
        current,
        "/home/me/.config/op-cache/config.toml".to_string(),
        "/run/op-cache.sock".to_string(),
        Some("/home/me".to_string()),
    )
}

fn custom() -> Config {
    Config {
        ttl: Some(Duration::from_secs(5400)),
        idle_timeout: Some(Duration::from_secs(60)),
        op: "/opt/op".to_string(),
        socket: Some("/my.sock".to_string()),
        overrides: vec![("op://v/".to_string(), None)],
    }
}

/// What comes of pressing Enter, and nothing else.
fn enter(question: Question) -> Answer {
    match question {
        Question::Choice(menu) => match menu.interact(24).step(Key::Enter) {
            Step::Done(yes) => Answer::Choice(yes),
            _ => panic!("no choice"),
        },
        Question::Text(field) => match field.interact().step(Key::Enter) {
            Step::Done(s) => Answer::Text(s),
            _ => panic!("no text"),
        },
        Question::Decision(c) => match c.interact().step(Key::Enter) {
            Step::Done(yes) => Answer::Decision(yes),
            _ => panic!("no decision"),
        },
    }
}

#[test]
fn entering_through_keeps_everything() {
    let longest = Config {
        ttl: Some(Duration { secs: u64::MAX, nanos: 999_999_999 }),
        ..custom()
    };
    for config in [Config::default(), custom(), longest] {
        let mut w = wizard(config.clone());
        while let Some(question) = w.question() {
            let answer = enter(question);
            w.answer(answer);
        }
        assert_eq!(w.stage, Stage::Accepted);
        assert_eq!(w.into_config(), config);
    }
}

#[test]
fn answers_make_the_configuration() {
    let mut w = wizard(Config { overrides: custom().overrides, ..Config::default() });
    w.answer(Answer::Choice(true));
    assert_eq!(w.stage, Stage::TtlLength);
    w.answer(Answer::Text("90m".to_string()));
    assert_eq!(w.stage, Stage::Idle);
    w.answer(Answer::Choice(true));
    assert_eq!(w.stage, Stage::IdleLength);
    w.answer(Answer::Text("1m".to_string()));
    assert_eq!(w.stage, Stage::Op);
    w.answer(Answer::Text("/opt/op".to_string()));
    assert_eq!(w.stage, Stage::Socket);
    w.answer(Answer::Choice(true));
    assert_eq!(w.stage, Stage::SocketPath);
    w.answer(Answer::Text("/my.sock".to_string()));
    assert_eq!(w.stage, Stage::Review);
    assert_eq!(
        w.review(&None, false),
        "Secrets live  1h 30m\nDaemon idles  1m\nop binary     /opt/op\nSocket        /my.sock"
    );
    w.answer(Answer::Decision(true));
    assert_eq!(w.saved(), "Saved to ~/.config/op-cache/config.toml");
    assert_eq!(w.into_config(), custom());
}

#[test]
fn a_declined_review_ends_the_wizard() {
    let mut w = wizard(custom());
    w.answer(Answer::Choice(false));
    w.answer(Answer::Choice(false));
    w.answer(Answer::Text("op".to_string()));
    w.answer(Answer::Choice(false));
    assert_eq!(
        w.review(&None, true),
        "\u{1b}[2mSecrets live  \u{1b}[0muntil the daemon exits\n\
         \u{1b}[2mDaemon idles  \u{1b}[0mforever\n\
         \u{1b}[2mop binary     \u{1b}[0mop\n\
         \u{1b}[2mSocket        \u{1b}[0m/run/op-cache.sock"
    );
    assert!(w.review(&Some("/env.sock".to_string()), false).ends_with("Socket        /env.sock"));
    w.answer(Answer::Decision(false));
    assert_eq!(w.stage, Stage::Declined);
    assert!(w.question().is_none());
}

#[test]
fn questions_show_what_is_current() {
    let mut w = wizard(Config::default());
    let Some(Question::Choice(menu)) = w.question() else { panic!("no choice") };
    assert_eq!(menu.question, "How long should a cached secret live?");
    assert_eq!(
        menu.body(&Phase::Active, false),
        [
            "● Until the daemon exits (the default; nothing ever goes stale on its own)",
            "○ For a fixed duration"
        ]
    );
    w.answer(Answer::Choice(true));
    let Some(Question::Text(mut field)) = w.question() else { panic!("no text") };
    assert_eq!(field.question, "For how long?");
    assert_eq!(field.body(&Phase::Active, false), ["e.g. 1h, 30m, 2d"]);
    for c in "soon".chars() {
        field.key(Key::Char(c));
    }
    assert_eq!(field.submit(), Err("use a duration like 30m, 2h or 1d".to_string()));

    let mut w = wizard(custom());
    w.answer(Answer::Choice(true));
    let Some(Question::Text(mut field)) = w.question() else { panic!("no text") };
    assert_eq!(field.submit(), Ok("1h 30m".to_string()));
    w.answer(Answer::Text("2h".to_string()));
    let Some(Question::Choice(menu)) = w.question() else { panic!("no choice") };
    assert_eq!(
        menu.body(&Phase::Active, false),
        [
            "○ No, keep it running",
            "● Yes, after a quiet period (drops every secret from memory when it exits)"
        ]
    );
    w.answer(Answer::Choice(false));
    w.answer(Answer::Text("op".to_string()));
    let Some(Question::Choice(menu)) = w.question() else { panic!("no choice") };
    assert_eq!(
        menu.body(&Phase::Active, false),
        ["○ The default location", "● A path of my choosing"]
    );
    w.answer(Answer::Choice(true));
    let Some(Question::Text(mut field)) = w.question() else { panic!("no text") };
    assert_eq!(field.submit(), Ok("/my.sock".to_string()));
    w.answer(Answer::Text("/x".to_string()));
    let Some(Question::Decision(c)) = w.question() else { panic!("no decision") };
    assert_eq!(c.question, "Write ~/.config/op-cache/config.toml?");
    assert!(c.yes);
}

#[test]
fn answers_are_checked() {
    assert_eq!(check_lifetime(&"30m".to_string()), Ok(()));
    for bad in ["", "never", "soon", "99999999999999999999y"] {
        assert_eq!(
            check_lifetime(&bad.to_string()),
            Err("use a duration like 30m, 2h or 1d".to_string())
        );
        assert_eq!(given_lifetime(bad), None);
    }
    assert_eq!(given_lifetime("2d"), Some(Duration::from_secs(172_800)));
    assert_eq!(given_lifetime("600000000000ns 1s"), Some(Duration::from_secs(601)));
    assert_eq!(check_lifetime(&"1y 600000000000ns".to_string()), Ok(()));
    assert_eq!(check_socket(&"/x".to_string()), Ok(()));
    assert_eq!(check_socket(&"x".to_string()), Err("give an absolute path".to_string()));
    assert_eq!(check_socket(&"".to_string()), Err("give an absolute path".to_string()));
}

#[test]
fn paths_are_shown_from_home() {
    let home = Some("/home/me".to_string());
    assert_eq!(display_path("/home/me/x", &home), "~/x");
    assert_eq!(display_path("/home/mean", &home), "~an");
    assert_eq!(display_path("/etc/x", &home), "/etc/x");
    assert_eq!(display_path("/etc/x", &Some(String::new())), "/etc/x");
    assert_eq!(display_path("/etc/x", &None), "/etc/x");
    assert_eq!(
        heading("/c.toml"),
        "# /c.toml\n# `op-cache config` on a terminal walks through these interactively.\n"
    );
}

#[test]
fn a_running_daemon_is_affected_by_its_own_settings_only() {
    let current = custom();
    let with_socket = |s: &str| Config { socket: Some(s.to_string()), ..custom() };
    assert!(!daemon_affected(&current, &custom()));
    assert!(!daemon_affected(&current, &Config { ttl: None, op: "x".into(), ..custom() }));
    assert!(daemon_affected(&current, &Config { idle_timeout: None, ..custom() }));
    assert!(daemon_affected(
        &current,
        &Config { idle_timeout: Some(Duration { secs: 60, nanos: 1 }), ..custom() }
    ));
    assert!(daemon_affected(&current, &Config { socket: None, ..custom() }));
    assert!(daemon_affected(&current, &with_socket("/other.sock")));
    assert!(!daemon_affected(&with_socket("/a/b"), &with_socket("/a//./b/")));
    assert!(!daemon_affected(&Config::default(), &Config::default()));
}
