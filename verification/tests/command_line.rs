use op_cache::cli::{
    cache_key, command_after_dashes, dispatch, env_value, op_refs, with_subcommand, writes_file,
    Command, HELP,
};
use op_cache::op::exit_code;

fn os(args: &[&str]) -> Vec<String> {
    args.iter().map(|s| s.to_string()).collect()
}

#[test]
fn run_takes_the_command_after_the_dashes() {
    assert_eq!(
        command_after_dashes(&os(&["--", "things", "-x"])),
        Some(&os(&["things", "-x"])[..])
    );
    assert_eq!(
        command_after_dashes(&os(&["things", "-x"])),
        Some(&os(&["things", "-x"])[..])
    );
    assert_eq!(
        command_after_dashes(&os(&["--env-file", ".env", "--", "things"])),
        None
    );
    assert_eq!(command_after_dashes(&os(&["--no-masking", "things"])), None);
    assert_eq!(command_after_dashes(&os(&["--"])), None);
}

#[test]
fn run_keeps_later_dashes_for_the_command() {
    assert_eq!(
        command_after_dashes(&os(&["--", "a", "--", "b"])),
        Some(&os(&["a", "--", "b"])[..])
    );
    assert_eq!(command_after_dashes(&os(&["a", "--", "b"])), None);
    assert_eq!(command_after_dashes(&os(&[])), None);
    assert_eq!(command_after_dashes(&os(&[""])), Some(&os(&[""])[..]));
}

#[test]
fn only_op_references_are_resolved() {
    let vars = vec![
        ("PATH".to_string(), "/bin".to_string()),
        ("TOKEN".to_string(), "op://vault/item/field".to_string()),
        ("OTHER".to_string(), "op://vault/other/field".to_string()),
        ("NOT".to_string(), "not op://".to_string()),
    ];
    assert_eq!(
        op_refs(vars),
        vec![
            ("OTHER".to_string(), "op://vault/other/field".to_string()),
            ("TOKEN".to_string(), "op://vault/item/field".to_string()),
        ]
    );
}

#[test]
fn references_are_sorted_by_name_and_then_by_value() {
    let mut vars: Vec<(String, String)> = [("b", "op://2"), ("a", "op://9"), ("b", "op://1"), ("a", "op://9")]
        .iter()
        .map(|(k, v)| (k.to_string(), v.to_string()))
        .collect();
    let refs = op_refs(vars.clone());
    vars.sort();
    assert_eq!(refs, vars);
}

#[test]
fn words_ask_for_commands() {
    assert_eq!(dispatch(&os(&[])), Command::Help);
    assert_eq!(dispatch(&os(&["-h"])), Command::Help);
    assert_eq!(dispatch(&os(&["--help"])), Command::Help);
    assert_eq!(dispatch(&os(&["help"])), Command::Help);
    assert_eq!(dispatch(&os(&["-V"])), Command::Version);
    assert_eq!(dispatch(&os(&["--version"])), Command::Version);
    assert_eq!(dispatch(&os(&["read", "x"])), Command::Read);
    assert_eq!(dispatch(&os(&["run", "x", "y"])), Command::Run);
    assert_eq!(dispatch(&os(&["read"])), Command::BareRead);
    assert_eq!(dispatch(&os(&["run"])), Command::BareRun);
    assert_eq!(dispatch(&os(&["config"])), Command::Config);
    assert_eq!(dispatch(&os(&["status"])), Command::Status);
    assert_eq!(dispatch(&os(&["inspect"])), Command::Inspect);
    assert_eq!(dispatch(&os(&["clear"])), Command::Clear);
    assert_eq!(dispatch(&os(&["stop"])), Command::Stop);
    assert_eq!(dispatch(&os(&["daemon"])), Command::Daemon);
    assert!(HELP.contains("\nUsage: op-cache [COMMAND]\n"));
}

#[test]
fn other_words_go_to_op() {
    assert_eq!(dispatch(&os(&["item", "get", "x"])), Command::Op);
    assert_eq!(dispatch(&os(&["--account", "a", "read", "x"])), Command::Op);
    assert_eq!(dispatch(&os(&["status", "extra"])), Command::Op);
    assert_eq!(dispatch(&os(&["help", "read"])), Command::Op);
    assert_eq!(dispatch(&os(&[""])), Command::Op);
    assert_eq!(
        command_after_dashes(&os(&["--env-file", ".env", "--", "true"])),
        None
    );
    assert_eq!(
        with_subcommand("run".to_string(), &os(&["--env-file", ".env", "--", "true"])),
        os(&["run", "--env-file", ".env", "--", "true"])
    );
    assert!(writes_file(&os(&["op://v/i/f", "-o", "out"])));
    assert!(writes_file(&os(&["--out-file", "out", "op://v/i/f"])));
    assert!(!writes_file(&os(&["op://v/i/f", "-out"])));
    assert_eq!(
        with_subcommand("read".to_string(), &os(&["op://v/i/f", "-o", "out"])),
        os(&["read", "op://v/i/f", "-o", "out"])
    );
}

#[test]
fn different_arguments_get_different_keys() {
    assert_eq!(cache_key(&os(&["op://v/i/f"])), "op://v/i/f");
    assert_eq!(
        cache_key(&os(&["--account", "work", "op://v/i/f"])),
        "--account\u{1f}work\u{1f}op://v/i/f"
    );
    assert_ne!(cache_key(&os(&["a", "b"])), cache_key(&os(&["ab"])));
    assert_ne!(cache_key(&os(&["a", ""])), cache_key(&os(&["a"])));
}

#[test]
fn a_variable_gets_the_secret_without_its_newline() {
    assert_eq!(env_value(b"secret\n".to_vec()), Ok("secret".to_string()));
    assert_eq!(env_value(b"secret\n\n".to_vec()), Ok("secret\n".to_string()));
    assert_eq!(env_value("é".as_bytes().to_vec()), Ok("é".to_string()));
    assert_eq!(env_value(b"".to_vec()), Ok(String::new()));
    assert_eq!(env_value(vec![0xff, 10]), Err(vec![0xff]));
}

#[test]
fn a_signal_becomes_code_one() {
    assert_eq!(exit_code(Some(3)), 3);
    assert_eq!(exit_code(Some(0)), 0);
    assert_eq!(exit_code(None), 1);
}
