use pulse::cli::{parse_command, public_external, verdict_exit_code, CliError, Command};
use pulse::snapshot::Connection;
use pulse::verdict::Verdict;
use pulse::watch::Diff;

fn args(a: &[&str]) -> Vec<String> {
    a.iter().map(|s| s.to_string()).collect()
}

fn conn(remote: &str) -> Connection {
    Connection {
        pid: 1,
        local_addr: "10.0.0.2:5000".to_string(),
        remote_addr: remote.to_string(),
        state: "ESTABLISHED".to_string(),
    }
}

#[test]
fn parses_subcommands() {
    assert!(matches!(parse_command(&args(&["snapshot"])), Ok(Command::Snapshot)));
    assert!(matches!(parse_command(&args(&["snapshot", "extra"])), Ok(Command::Snapshot)));
    assert!(matches!(parse_command(&args(&["help"])), Ok(Command::Help)));
    assert!(matches!(parse_command(&args(&["--help"])), Ok(Command::Help)));
    assert!(matches!(parse_command(&args(&["-h"])), Ok(Command::Help)));
    match parse_command(&args(&["diff", "a.json", "b.json"])) {
        Ok(Command::Diff { baseline, current }) => {
            assert_eq!(baseline, "a.json");
            assert_eq!(current, "b.json");
        }
        other => panic!("unexpected {:?}", other),
    }
}

#[test]
fn parses_verdict_watch_list() {
    match parse_command(&args(&["verdict", "a.json", "b.json", "--watch", "880", "-w", "+4"])) {
        Ok(Command::Verdict { baseline, current, watched_pids }) => {
            assert_eq!(baseline, "a.json");
            assert_eq!(current, "b.json");
            assert_eq!(watched_pids, vec![880, 4]);
        }
        other => panic!("unexpected {:?}", other),
    }
    match parse_command(&args(&["verdict", "a.json", "b.json"])) {
        Ok(Command::Verdict { watched_pids, .. }) => assert!(watched_pids.is_empty()),
        other => panic!("unexpected {:?}", other),
    }
}

#[test]
fn refuses_bad_command_lines() {
    assert!(matches!(parse_command(&args(&[])), Err(CliError::MissingSubcommand)));
    assert!(matches!(parse_command(&args(&["diff", "a.json"])), Err(CliError::DiffArity)));
    assert!(matches!(parse_command(&args(&["diff", "a", "b", "c"])), Err(CliError::DiffArity)));
    assert!(matches!(parse_command(&args(&["verdict", "a.json"])), Err(CliError::VerdictArity)));
    assert!(matches!(
        parse_command(&args(&["verdict", "a", "b", "--watch"])),
        Err(CliError::WatchNeedsPid)
    ));
    match parse_command(&args(&["verdict", "a", "b", "-w", "-5"])) {
        Err(CliError::InvalidPid(s)) => assert_eq!(s, "-5"),
        other => panic!("unexpected {:?}", other),
    }
    match parse_command(&args(&["verdict", "a", "b", "-w", "4294967296"])) {
        Err(CliError::InvalidPid(s)) => assert_eq!(s, "4294967296"),
        other => panic!("unexpected {:?}", other),
    }
    match parse_command(&args(&["verdict", "a", "b", "--pid", "3"])) {
        Err(CliError::UnexpectedArgument(s)) => assert_eq!(s, "--pid"),
        other => panic!("unexpected {:?}", other),
    }
    match parse_command(&args(&["frobnicate"])) {
        Err(CliError::UnknownSubcommand(s)) => assert_eq!(s, "frobnicate"),
        other => panic!("unexpected {:?}", other),
    }
}

#[test]
fn usage_follows_some_errors() {
    assert!(CliError::MissingSubcommand.shows_usage());
    assert!(CliError::DiffArity.shows_usage());
    assert!(CliError::VerdictArity.shows_usage());
    assert!(CliError::UnknownSubcommand("x".to_string()).shows_usage());
    assert!(!CliError::WatchNeedsPid.shows_usage());
    assert!(!CliError::InvalidPid("x".to_string()).shows_usage());
    assert!(!CliError::UnexpectedArgument("x".to_string()).shows_usage());
}

#[test]
fn public_external_lists_public_peers() {
    let d = Diff {
        new_processes: vec![],
        new_external_connections: vec![conn("10.0.0.5:80"), conn("203.0.113.66:443"), conn("8.8.8.8:53")],
        orphaned_parents: vec![],
    };
    let list = public_external(&d);
    assert_eq!(list, vec![conn("203.0.113.66:443"), conn("8.8.8.8:53")]);
}

#[test]
fn exit_code_of_verdicts() {
    assert_eq!(verdict_exit_code(Verdict::Okay), 0);
    assert_eq!(verdict_exit_code(Verdict::Warn), 0);
    assert_eq!(verdict_exit_code(Verdict::Alert), 1);
}
