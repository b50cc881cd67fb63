use pipekeep::cli::{broker_args, build_revision, capabilities, parse, parse_limit, CliFault, Mode, HELP};

fn args(values: &[&str]) -> Vec<String> {
    values.iter().map(|value| (*value).to_owned()).collect()
}

#[test]
fn framed_requires_strict_server_option_context_and_buffering() {
    assert!(matches!(
        parse(args(&["--id", "x", "--framed", "--", "cat"])).unwrap(),
        Mode::Server { framed: true, .. }
    ));
    assert!(parse(args(&["--framed", "--id", "x", "--", "cat"])).is_err());
    assert!(parse(args(&["--id", "x", "--framed", "--nobuffer", "--", "cat"])).is_err());
    assert!(parse(args(&["--id", "x", "--nobuffer", "--framed", "--", "cat"])).is_err());
}

#[test]
fn finite_policy_is_checked_and_old_parser_safe() {
    assert!(parse(args(&[
        "--group-pidfd",
        "--id",
        "x",
        "--output-bounded",
        "--output-limit",
        "0",
        "--",
        "true"
    ]))
    .is_err());
    for limit in ["0", "9223372036854775807"] {
        assert!(matches!(
            parse(args(&[
                "--id",
                "x",
                "--output-bounded",
                "--group-pidfd",
                "--output-limit",
                limit,
                "--",
                "true"
            ]))
            .unwrap(),
            Mode::Server {
                output_limit: Some(_),
                ..
            }
        ));
    }
    for limit in [
        "-1",
        "+1",
        "",
        "1k",
        "9223372036854775808",
        "18446744073709551616",
    ] {
        assert!(parse(args(&[
            "--id",
            "x",
            "--output-bounded",
            "--group-pidfd",
            "--output-limit",
            limit,
            "--",
            "true"
        ]))
        .is_err());
    }
    assert!(parse(args(&["--output-bounded", "--id", "x", "--", "true"])).is_err());
}

#[test]
fn parses_outer_and_server() {
    assert!(matches!(
        parse(vec!["--".into(), "ssh".into(), "host".into()]).unwrap(),
        Mode::Outer { .. }
    ));
    assert!(matches!(
        parse(vec!["--id".into(), "x".into(), "--".into(), "cat".into()]).unwrap(),
        Mode::Server { .. }
    ));
    assert!(matches!(
        parse(vec![
            "--id".into(),
            "x".into(),
            "--force".into(),
            "--".into(),
            "cat".into()
        ])
        .unwrap(),
        Mode::Server { force: true, .. }
    ));
    assert!(parse(vec!["--force".into(), "--".into(), "ssh".into()]).is_err());
}

#[test]
fn parses_capabilities_probe_strictly() {
    assert!(matches!(
        parse(vec!["capabilities".into(), "--json".into()]).unwrap(),
        Mode::Capabilities
    ));
    assert!(parse(vec!["capabilities".into()]).is_err());
    assert!(parse(vec!["capabilities".into(), "--text".into()]).is_err());
    assert!(parse(vec!["capabilities".into(), "--json".into(), "extra".into()]).is_err());
}

fn fault(values: &[&str]) -> (CliFault, String) {
    let error = parse(args(values)).unwrap_err();
    let message = error.message();
    (error.fault, message)
}

#[test]
fn every_refusal_names_what_is_wrong() {
    let cases: Vec<(Vec<&str>, CliFault, &str)> = vec![
        (vec!["--id"], CliFault::IdValue, "--id requires a value"),
        (
            vec!["--output-bounded", "--id", "x", "--", "true"],
            CliFault::BoundedOrder,
            "--output-bounded must follow --id ID",
        ),
        (
            vec!["--output-limit", "1", "--id", "x", "--", "true"],
            CliFault::LimitOrder,
            "--output-limit must follow --id ID",
        ),
        (
            vec!["--id", "x", "--output-limit", "1", "--output-limit", "1", "--", "true"],
            CliFault::LimitTwice,
            "duplicate --output-limit",
        ),
        (
            vec!["--id", "x", "--output-limit"],
            CliFault::LimitMissing,
            "--output-limit requires decimal bytes",
        ),
        (
            vec!["--id", "x", "--output-limit", "+1", "--", "true"],
            CliFault::LimitInvalid,
            "invalid output limit",
        ),
        (
            vec!["--id", "x", "--output-limit", "18446744073709551616", "--", "true"],
            CliFault::LimitTooLarge,
            "number too large to fit in target type",
        ),
        (
            vec!["--id", "x", "--output-limit", "9223372036854775808", "--", "true"],
            CliFault::LimitRange,
            "output limit exceeds file offset range",
        ),
        (
            vec!["--framed", "--id", "x", "--", "cat"],
            CliFault::FramedOrder,
            "--framed must follow --id ID",
        ),
        (
            vec!["--id", "x", "cat"],
            CliFault::ServerOption,
            "unknown server option \"cat\"; put the command after --",
        ),
        (
            vec!["--id", "x", "--framed", "--nobuffer", "--", "cat"],
            CliFault::FramedNeedsBuffer,
            "--framed requires --id and buffered sessions (no --nobuffer)",
        ),
        (
            vec!["--group-pidfd", "--id", "x", "--output-bounded", "--", "true"],
            CliFault::GroupOrder,
            "finite output requires --id ID before --group-pidfd",
        ),
        (
            vec!["--id", "x", "--output-limit", "1", "--", "true"],
            CliFault::LimitNeeds,
            "--output-limit requires --output-bounded, --group-pidfd and buffering",
        ),
        (vec!["--id", "x", "--"], CliFault::CommandRequired, "a command is required"),
        (
            vec!["--group-pidfd", "--", "true"],
            CliFault::GroupNeedsId,
            "--group-pidfd requires --id and new-session creation",
        ),
        (
            vec!["--force", "--", "true"],
            CliFault::ForceNeedsId,
            "--force requires --id and only applies to attach-only sessions",
        ),
        (vec!["session", "--name", "x"], CliFault::ExpectedId, "expected --id ID"),
        (
            vec!["pid", "--id", "x", "--require-group-pidfd"],
            CliFault::ExpectedControl,
            "expected --id ID [--require-group-pidfd for cancel]",
        ),
        (
            vec!["__broker", "--force"],
            CliFault::BrokerOption,
            "unknown broker option \"--force\"",
        ),
        (
            vec!["__broker", "--id", "x", "--session-dir", "/d"],
            CliFault::BrokerCommand,
            "broker command is missing",
        ),
        (
            vec!["__broker", "--id", "x", "--session-dir", "/d", "--output-limit", "1", "--", "true"],
            CliFault::BrokerFinite,
            "finite output requires buffered group pidfd session",
        ),
        (
            vec!["__broker", "--session-dir", "/d", "--", "true"],
            CliFault::BrokerId,
            "broker ID is missing",
        ),
        (
            vec!["__broker", "--id", "x", "--", "true"],
            CliFault::BrokerDirectory,
            "broker session directory is missing",
        ),
        (
            vec!["capabilities"],
            CliFault::CapabilitiesJson,
            "capabilities requires --json; only machine-readable output is provided",
        ),
        (
            vec!["capabilities", "--text"],
            CliFault::CapabilitiesArguments,
            "capabilities accepts exactly one argument: --json",
        ),
    ];
    for (words, expected, message) in cases {
        assert_eq!(fault(&words), (expected, message.to_owned()), "{words:?}");
    }
}

#[test]
fn quoted_arguments_escape_what_they_hold() {
    assert_eq!(
        fault(&["--id", "x", "a\"b\n"]).1,
        "unknown server option \"a\\\"b\\n\"; put the command after --"
    );
}

#[test]
fn help_and_version_come_first() {
    assert!(matches!(parse(args(&[])).unwrap(), Mode::Help));
    assert!(matches!(parse(args(&["-h", "--id"])).unwrap(), Mode::Help));
    assert!(matches!(parse(args(&["--version"])).unwrap(), Mode::Version));
    assert!(matches!(parse(args(&["-V"])).unwrap(), Mode::Version));
    assert!(HELP.contains("--output-limit"));
}

#[test]
fn control_commands_take_an_id_and_switches_anywhere() {
    match parse(args(&["cancel", "--require-group-pidfd", "--id", "x", "--output-bounded"])).unwrap() {
        Mode::Cancel { id, require_group_pidfd, output_bounded } => {
            assert_eq!(id, "x");
            assert!(require_group_pidfd);
            assert!(output_bounded);
        }
        _ => panic!("expected a cancellation"),
    }
    match parse(args(&["cancel", "--id", "y"])).unwrap() {
        Mode::Cancel { id, require_group_pidfd, output_bounded } => {
            assert_eq!(id, "y");
            assert!(!require_group_pidfd);
            assert!(!output_bounded);
        }
        _ => panic!("expected a cancellation"),
    }
    assert!(matches!(parse(args(&["pid", "--id", "x"])).unwrap(), Mode::Pid { .. }));
    assert!(matches!(parse(args(&["session", "--id", "x"])).unwrap(), Mode::Session { .. }));
}

#[test]
fn a_broker_reads_back_its_own_command_line() {
    let command = args(&["sh", "-c", "exit 3"]);
    let words = broker_args("job", "/run/x", true, false, Some(4096), &command);
    match parse(words).unwrap() {
        Mode::Broker { id, group_pidfd, session_dir, output_limit, command: found, nobuffer } => {
            assert_eq!(id, "job");
            assert!(group_pidfd);
            assert_eq!(session_dir, "/run/x");
            assert_eq!(output_limit, Some(4096));
            assert_eq!(found, command);
            assert!(!nobuffer);
        }
        _ => panic!("expected a broker"),
    }
    let words = broker_args("job", "/run/x", false, true, None, &command);
    assert!(matches!(
        parse(words).unwrap(),
        Mode::Broker { group_pidfd: false, nobuffer: true, output_limit: None, .. }
    ));
}

#[test]
fn limits_are_plain_digits_up_to_the_signed_maximum() {
    let limit = |value: &str| parse_limit(Some(&value.to_owned()));
    assert_eq!(limit("0").unwrap(), 0);
    assert_eq!(limit("9223372036854775807").unwrap(), 9223372036854775807);
    assert_eq!(limit("9223372036854775808").unwrap_err().fault, CliFault::LimitRange);
    assert_eq!(limit("18446744073709551616").unwrap_err().fault, CliFault::LimitTooLarge);
    assert_eq!(limit("").unwrap_err().fault, CliFault::LimitInvalid);
    assert_eq!(parse_limit(None).unwrap_err().fault, CliFault::LimitMissing);
}

#[test]
fn a_session_without_an_id_is_an_outer_one() {
    match parse(args(&["--nobuffer", "ssh", "host", "--id"])).unwrap() {
        Mode::Outer { command, nobuffer } => {
            assert_eq!(command, args(&["ssh", "host", "--id"]));
            assert!(nobuffer);
        }
        _ => panic!("expected an outer session"),
    }
}

#[test]
fn capabilities_are_listed_in_order() {
    let record = capabilities("0.1.0", Some("abc"), None);
    assert_eq!(record.name, "pipekeep");
    assert_eq!(record.version, "0.1.0");
    assert_eq!(record.revision, "abc");
    assert_eq!(record.protocol, 1);
    assert_eq!(capabilities("0.1.0", None, None).revision, "unknown");
    let names = record.capabilities;
    assert_eq!(names.len(), 12);
    for expected in [
        "raw-public-streams",
        "framed-v1",
        "absolute-resume-offsets",
        "sticky-stdin-eof",
        "separate-stdout-stderr",
        "process-group-cancel",
        "cancel-outcome",
        "opt-in-group-pidfd-cancel-v1",
        "terminal-replay",
        "nobuffer",
        "forced-attach-takeover",
    ] {
        assert!(names.iter().any(|name| name == expected), "missing {expected}");
    }
    assert_eq!(names[0], "raw-public-streams");
    assert_eq!(names[8], "opt-in-finite-output-v1");
    assert_eq!(names[11], "forced-attach-takeover");
}

#[test]
fn a_revision_is_never_empty() {
    assert_eq!(build_revision(Some(" abc\n"), Some("def")), "abc");
    assert_eq!(build_revision(Some(" \t"), Some("def\n")), "def");
    assert_eq!(build_revision(None, Some("def")), "def");
    assert_eq!(build_revision(None, Some("\n")), "unknown");
    assert_eq!(build_revision(None, None), "unknown");
}
