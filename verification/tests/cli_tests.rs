use focus_client_rust::cli::{parse_cli_command, CliCommand};

fn args(list: &[&str]) -> Vec<String> {
    let mut v = vec!["focus_client_rust".to_string()];
    v.extend(list.iter().map(|s| s.to_string()));
    v
}

#[test]
fn no_argument_runs_the_client() {
    assert_eq!(parse_cli_command(&args(&[])).unwrap(), CliCommand::Run);
}

#[test]
fn every_alias_selects_its_command() {
    for a in ["analytics", "a", "--analytics", "-a", "--a"] {
        assert_eq!(parse_cli_command(&args(&[a])).unwrap(), CliCommand::Analytics);
    }
    for a in ["report", "r", "--report", "-r", "--r"] {
        assert_eq!(parse_cli_command(&args(&[a])).unwrap(), CliCommand::Report);
    }
    for a in ["help", "h", "--help", "-h", "--h"] {
        assert_eq!(parse_cli_command(&args(&[a])).unwrap(), CliCommand::Help);
    }
}

#[test]
fn unknown_argument_is_refused() {
    assert_eq!(
        parse_cli_command(&args(&["--verbose"])).unwrap_err(),
        "Unknown command or flag '--verbose'."
    );
    assert_eq!(parse_cli_command(&args(&["Analytics"])).unwrap_err(), "Unknown command or flag 'Analytics'.");
}

#[test]
fn too_many_arguments_are_refused() {
    assert_eq!(
        parse_cli_command(&args(&["a", "r"])).unwrap_err(),
        "Expected at most one command argument, got 2."
    );
    assert_eq!(
        parse_cli_command(&args(&["a", "b", "c", "d", "e", "f", "g", "h", "i", "j", "k", "l"])).unwrap_err(),
        "Expected at most one command argument, got 12."
    );
}
