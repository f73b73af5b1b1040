use herdr_coordinator::activation::DesiredActivation;
use herdr_coordinator::cli::{socket_or_default, Cli, CliError, Command, WorkspaceCommand};
use herdr_coordinator::contract::HarnessKind;

fn arguments(list: &[&str]) -> Vec<String> {
    list.iter().map(|text| (*text).to_owned()).collect()
}

fn parse(list: &[&str]) -> Result<Cli, CliError> {
    Cli::try_parse_from(&arguments(list), &Vec::new())
}

fn parse_in(list: &[&str], env: &[(&str, &str)]) -> Result<Cli, CliError> {
    let env: Vec<(String, String)> =
        env.iter().map(|(name, value)| ((*name).to_owned(), (*value).to_owned())).collect();
    Cli::try_parse_from(&arguments(list), &env)
}

#[test]
fn workspace_set_parses_the_idempotent_desired_state_surface() {
    let cli = parse(&[
        "coordinator",
        "workspace",
        "--state-dir",
        "/tmp/state",
        "set",
        "on",
        "--workspace",
        "wF",
        "--root",
        "/repo",
        "--session-socket",
        "/tmp/herdr.sock",
        "--expected-revision",
        "4",
    ])
    .unwrap();

    assert!(matches!(
        cli.command,
        Command::Workspace {
            command: WorkspaceCommand::SetDesired {
                state: DesiredActivation::On,
                expected_revision: Some(4),
                ..
            },
            ..
        }
    ));
}

#[test]
fn every_option_of_a_new_state_is_read() {
    let cli = parse(&[
        "coordinator",
        "workspace",
        "--state-dir=/s",
        "set",
        "--worker",
        "w1=p1",
        "off",
        "--worker=w2=p2",
        "--workspace",
        "wF",
        "--session-socket",
        "/h.sock",
        "--supervisor-kind",
        "codex",
        "--supervisor-model",
        "m",
        "--supervisor-reasoning-effort",
        "high",
        "--json",
    ])
    .unwrap();
    match cli.command {
        Command::Workspace {
            state_dir,
            command:
                WorkspaceCommand::SetDesired {
                    state,
                    target,
                    expected_revision,
                    supervisor_kind,
                    supervisor_model,
                    supervisor_reasoning_effort,
                    worker,
                },
        } => {
            assert_eq!(state_dir, "/s");
            assert_eq!(state, DesiredActivation::Off);
            assert_eq!(target.workspace, "wF");
            assert_eq!(target.root, None);
            assert_eq!(target.session_socket, "/h.sock");
            assert!(target.json);
            assert_eq!(expected_revision, None);
            assert_eq!(supervisor_kind, Some(HarnessKind::Codex));
            assert_eq!(supervisor_model.as_deref(), Some("m"));
            assert_eq!(supervisor_reasoning_effort.as_deref(), Some("high"));
            assert_eq!(worker, vec!["w1=p1".to_owned(), "w2=p2".to_owned()]);
        }
        other => panic!("{other:?}"),
    }
}

#[test]
fn the_environment_stands_in_for_missing_options() {
    let cli = parse_in(
        &["coordinator", "mcp"],
        &[("HERDR_HARNESS_CAPABILITY", "bearer"), ("HERDR_PLUGIN_STATE_DIR", "/state")],
    )
    .unwrap();
    match cli.command {
        Command::Mcp { session_capability, state_dir, socket } => {
            assert_eq!(session_capability, "bearer");
            assert_eq!(state_dir, "/state");
            assert_eq!(socket, None);
        }
        other => panic!("{other:?}"),
    }
    let cli = parse_in(
        &["coordinator", "call", "--socket", "/own"],
        &[("HERDR_COORDINATOR_SOCKET", "/other")],
    )
    .unwrap();
    assert!(matches!(cli.command, Command::Call { socket } if socket == "/own"));
}

#[test]
fn every_command_has_its_name() {
    let host = ["--state-dir", "/s", "--socket", "/k"];
    let with = |name: &str, option: &str| {
        let mut list = vec!["coordinator", name, option, "value"];
        list.extend(host);
        parse(&list).unwrap().command
    };
    assert!(matches!(with("worker-host", "--session-id"), Command::WorkerHost { session_id, .. } if session_id == "value"));
    assert!(matches!(with("supervisor-host", "--supervisor-capability"), Command::SupervisorHost { socket: Some(_), .. }));
    assert!(matches!(with("popup", "--supervisor-capability"), Command::Popup { .. }));
    assert!(matches!(with("mcp", "--session-capability"), Command::Mcp { .. }));
    assert!(matches!(
        parse(&["coordinator", "daemon", "--state-dir", "/s"]).unwrap().command,
        Command::Daemon { socket: None, .. }
    ));
    assert!(matches!(
        parse(&["coordinator", "stdio-proxy", "--socket", "/k"]).unwrap().command,
        Command::StdioProxy { .. }
    ));
    assert!(matches!(
        parse(&["coordinator", "workspace", "--state-dir", "/s", "list", "--json"]).unwrap().command,
        Command::Workspace { command: WorkspaceCommand::List { json: true }, .. }
    ));
    assert!(matches!(
        parse(&[
            "coordinator", "workspace", "--state-dir", "/s", "get", "--workspace", "w",
            "--session-socket", "/h",
        ])
        .unwrap()
        .command,
        Command::Workspace { command: WorkspaceCommand::Get(_), .. }
    ));
}

#[test]
fn malformed_command_lines_are_refused() {
    assert!(matches!(parse(&["coordinator"]), Err(CliError::MissingCommand)));
    assert!(matches!(parse(&[]), Err(CliError::MissingCommand)));
    assert!(matches!(parse(&["coordinator", "fly"]), Err(CliError::UnknownCommand(name)) if name == "fly"));
    assert!(matches!(
        parse(&["coordinator", "--json"]),
        Err(CliError::UnexpectedArgument(name)) if name == "--json"
    ));
    assert!(matches!(
        parse(&["coordinator", "call", "--socket"]),
        Err(CliError::MissingValue(name)) if name == "--socket"
    ));
    assert!(matches!(
        parse(&["coordinator", "call", "--socket", "--json"]),
        Err(CliError::MissingValue(_))
    ));
    assert!(matches!(
        parse(&["coordinator", "call", "--socket", "/a", "--socket", "/b"]),
        Err(CliError::RepeatedOption(name)) if name == "--socket"
    ));
    assert!(matches!(
        parse(&["coordinator", "call"]),
        Err(CliError::MissingArgument(name)) if name == "--socket"
    ));
    assert!(matches!(
        parse(&["coordinator", "call", "--socket="]),
        Err(CliError::InvalidValue(name)) if name == "--socket"
    ));
    assert!(matches!(
        parse(&["coordinator", "call", "--socket", "/a", "extra"]),
        Err(CliError::UnexpectedArgument(name)) if name == "extra"
    ));
    let set = |tail: &[&str]| {
        let mut list =
            vec!["coordinator", "workspace", "--state-dir", "/s", "set", "--workspace", "w"];
        list.extend(["--session-socket", "/h"]);
        list.extend(tail);
        parse(&list)
    };
    assert!(matches!(set(&[]), Err(CliError::MissingArgument(name)) if name == "state"));
    assert!(matches!(set(&["maybe"]), Err(CliError::InvalidValue(name)) if name == "state"));
    assert!(matches!(
        set(&["on", "--expected-revision", "four"]),
        Err(CliError::InvalidValue(name)) if name == "--expected-revision"
    ));
    assert!(matches!(
        set(&["on", "--supervisor-kind", "omp"]),
        Err(CliError::MissingArgument(name)) if name == "--supervisor-model"
    ));
    assert!(matches!(
        set(&["on", "--supervisor-kind", "other", "--supervisor-model", "m"]),
        Err(CliError::InvalidValue(name)) if name == "--supervisor-kind"
    ));
}

#[test]
fn a_socket_defaults_to_the_state_directory() {
    assert_eq!(socket_or_default(None, "/state"), "/state/coordinator.sock");
    assert_eq!(socket_or_default(Some("/run/k".to_owned()), "/state"), "/run/k");
}

#[test]
fn versions_and_help_are_shown() {
    let topic = |list: &[&str]| match parse(list).unwrap().command {
        Command::Help { topic } => topic,
        other => panic!("{other:?}"),
    };
    assert!(matches!(parse(&["c", "--version"]).unwrap().command, Command::Version));
    assert!(matches!(parse(&["c", "-V"]).unwrap().command, Command::Version));
    assert!(topic(&["c", "help"]).is_empty());
    assert_eq!(topic(&["c", "help", "daemon"]), arguments(&["daemon"]));
    assert_eq!(topic(&["c", "help", "workspace", "set"]), arguments(&["workspace", "set"]));
    assert_eq!(topic(&["c", "workspace", "help", "get"]), arguments(&["workspace", "get"]));
    assert!(matches!(
        parse(&["c", "help", "nothing"]),
        Err(CliError::UnknownCommand(name)) if name == "nothing"
    ));
    assert!(matches!(
        parse(&["c", "help", "daemon", "more"]),
        Err(CliError::UnknownCommand(name)) if name == "more"
    ));
    assert!(matches!(parse(&["c", "--help"]), Err(CliError::HelpWanted)));
    assert!(matches!(parse(&["c", "daemon", "-h"]), Err(CliError::HelpWanted)));
    assert!(matches!(parse(&["c", "workspace", "--help"]), Err(CliError::HelpWanted)));
}

#[test]
fn two_hyphens_name_no_command() {
    let refused = |list: &[&str]| match parse(list) {
        Err(CliError::UnexpectedArgument(name)) => name,
        other => panic!("{other:?}"),
    };
    assert_eq!(refused(&["c", "--", "daemon"]), "--");
    assert_eq!(refused(&["c", "workspace", "--state-dir", "/s", "--", "list"]), "--");
}
