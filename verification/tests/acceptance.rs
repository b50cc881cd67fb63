use pipekeep::acceptance::args::{
    next_arg, parse, ArgsFault, ControllerArgs, Invocation, Mode, Options, StdinTransportArgs,
    StdinWorkloadArgs,
};
use pipekeep::acceptance::events::{
    event_found, read_client_opening, read_event, read_server_opening,
    validate_stdin_replay_events, EventKind, EventsFault, ServerOpening, TransportEvent,
};
use pipekeep::acceptance::plan::{
    default_seed, finish, output_counts, process_code, resume_from, trial_cycles, trial_seed, watch,
    FinishFault, Lcg, TrialPlan, WatchStep,
};
use pipekeep::acceptance::records::{
    check_cancel, check_cancel_found, check_content, check_header, check_header_found,
    check_launch, check_position, expect_error, expect_success, expected_stream, find_error,
    header_end, read_position, workload_script, write_position, AnswerFault, CancelFault, Cleanup,
    HeaderFault, LaunchFault, PositionFault, WORKLOAD_EXIT,
};
use pipekeep::acceptance::replay::{
    deterministic_stdin_byte, deterministic_stdin_input, proper_prefix, raw_chunk_matches_input,
    report, sha256_hex, InputFault, ReplayAction, ReplayEvent, ReplayFault, ReplayRun,
    WorkloadInput, STDIN_RECORDS, STDIN_RECORD_SIZE,
};
use pipekeep::json::JsonAt;

fn words(values: &[&str]) -> Vec<String> {
    values.iter().map(|value| (*value).to_owned()).collect()
}

fn number(value: u64) -> JsonAt {
    JsonAt::Number { unsigned: Some(value), signed: Some(value as i64) }
}

#[test]
fn trials_read_their_options() {
    match parse(&words(&["chaos", "--seed", "9", "--cycles", "4", "--retain-temp", "--pipekeep", "/p"])).unwrap() {
        Invocation::Trial(mode, options) => {
            assert_eq!(mode, Mode::Chaos);
            assert_eq!(options.seed, Some(9));
            assert_eq!(options.cycles, 4);
            assert!(options.retain_temp);
            assert_eq!(options.pipekeep.unwrap(), "/p");
        }
        _ => panic!("expected a trial"),
    }
    let defaults = Options::parse(&[]).unwrap().unwrap();
    assert_eq!(defaults.cycles, 12);
    assert_eq!(defaults.seed, None);
    assert!(Options::parse(&words(&["--seed", "1", "-h", "--bogus"])).unwrap().is_none());
    assert!(matches!(parse(&[]).unwrap(), Invocation::Help));
    assert!(matches!(parse(&words(&["smoke", "--help"])).unwrap(), Invocation::Help));
}

#[test]
fn every_refused_argument_is_named() {
    let controller = [
        "__controller", "--pipekeep", "p", "--runtime", "r", "--id", "i", "--state", "s",
        "--workload", "w",
    ];
    let with = |extra: &[&'static str]| {
        let mut all = controller.to_vec();
        all.extend_from_slice(extra);
        all
    };
    let cases: Vec<(Vec<&str>, ArgsFault, &str)> = vec![
        (with(&["--id"]), ArgsFault::ValueMissing, "--id requires a value"),
        (vec!["__controller"], ArgsFault::Required, "--pipekeep is required"),
        (vec!["smoke", "--pipekeep"], ArgsFault::PathMissing, "--pipekeep requires a path"),
        (vec!["smoke", "--seed"], ArgsFault::SeedMissing, "--seed requires an integer"),
        (vec!["smoke", "--seed", "x"], ArgsFault::SeedInvalid, "--seed must be an unsigned integer"),
        (vec!["chaos", "--cycles"], ArgsFault::CyclesMissing, "--cycles requires an integer"),
        (vec!["chaos", "--cycles", "-1"], ArgsFault::CyclesInvalid, "--cycles must be a positive integer"),
        (vec!["chaos", "--cycles", "0"], ArgsFault::CyclesZero, "--cycles must be greater than zero"),
        (vec!["chaos", "--fast"], ArgsFault::OptionUnknown, "unknown option \"--fast\""),
        (with(&["--kill-after-ms", "x"]), ArgsFault::KillAfterInvalid, "--kill-after-ms must be an integer"),
        (with(&["--expect-exit", "x"]), ArgsFault::ExpectExitInvalid, "--expect-exit must be an integer"),
        (with(&["--ttl-secs", "x"]), ArgsFault::TtlInvalid, "--ttl-secs must be an integer"),
        (with(&["--root", "x"]), ArgsFault::ControllerUnknown, "unknown controller option \"--root\""),
        (vec!["__stdin_workload", "--input-len", "x"], ArgsFault::InputLengthInvalid, "--input-len must be an integer"),
        (vec!["__stdin_transport", "--state", "x"], ArgsFault::TransportUnknown, "unknown stdin transport option \"--state\""),
        (vec!["__stdin_workload", "--id", "x"], ArgsFault::WorkloadUnknown, "unknown stdin workload option \"--id\""),
        (vec!["go"], ArgsFault::CommandUnknown, "unknown command \"go\"; use smoke, chaos, or --help"),
    ];
    for (line, fault, message) in cases {
        let error = parse(&words(&line)).unwrap_err();
        assert_eq!(error.fault, fault, "{line:?}");
        assert_eq!(error.message(), message);
    }
    assert_eq!(next_arg(&words(&["--id", "x"]), 0, "--id").unwrap(), "x");
}

#[test]
fn started_processes_read_back_their_command_lines() {
    let controller = ControllerArgs {
        pipekeep: "/bin/p".into(),
        runtime: "/r".into(),
        id: "job".into(),
        state: "/s".into(),
        workload: "/w".into(),
        create: true,
        kill_after_ms: Some(180),
        expect_exit: Some(-3),
        ttl_secs: 7,
    };
    match parse(&controller.command_line()).unwrap() {
        Invocation::Controller(found) => {
            assert_eq!(found.pipekeep, "/bin/p");
            assert_eq!(found.workload, "/w");
            assert!(found.create);
            assert_eq!(found.kill_after_ms, Some(180));
            assert_eq!(found.expect_exit, Some(-3));
            assert_eq!(found.ttl_secs, 7);
        }
        _ => panic!("expected a controller"),
    }
    let transport = StdinTransportArgs {
        pipekeep: "p".into(),
        runtime: "r".into(),
        id: "i".into(),
        root: "o".into(),
        input_len: 524288,
    };
    assert!(matches!(
        parse(&transport.command_line()).unwrap(),
        Invocation::StdinTransport(found) if found.input_len == 524288 && found.root == "o"
    ));
    let workload = StdinWorkloadArgs { root: "o".into(), input_len: 64 };
    assert!(matches!(
        parse(&workload.command_line()).unwrap(),
        Invocation::StdinWorkload(found) if found.input_len == 64
    ));
}

#[test]
fn streams_are_numbered_lines() {
    assert_eq!(
        expected_stream("stdout", (1, 1)),
        "stdout:000:acceptance\nstdout:001:acceptance\n"
    );
    let long = expected_stream("e", (100, 901));
    assert!(long.contains("e:099:acceptance\n"));
    assert!(long.ends_with("e:1000:acceptance\n"));
    let script = workload_script("/t", (30, 50));
    assert!(script.starts_with("if ! mkdir '/t/launch.once' 2>/dev/null; then\n"));
    assert!(script.contains("while [ \"$i\" -lt 30 ]; do\n"));
    assert!(script.contains("while [ \"$i\" -lt 80 ]; do\n"));
    assert!(script.ends_with("exit 42\n"));
    assert_eq!(WORKLOAD_EXIT, 42);
}

#[test]
fn positions_survive_their_file() {
    for position in [0, 7, u64::MAX] {
        assert_eq!(read_position(Some(&write_position(position))), Some(position));
    }
    assert_eq!(read_position(None), Some(0));
    assert_eq!(read_position(Some(" 12\n")), Some(12));
    assert_eq!(read_position(Some("x")), None);
}

#[test]
fn contents_and_launches_are_checked() {
    assert!(check_content(b"ab", b"ab").is_ok());
    assert_eq!(
        check_content(b"ab", b"abc").unwrap_err().message("stdout"),
        "stdout mismatch: expected 3 bytes, got 2 bytes"
    );
    assert!(check_launch(true, false).is_ok());
    assert_eq!(check_launch(false, false), Err(LaunchFault::Never));
    assert_eq!(check_launch(true, true).unwrap_err().message(), "workload launched more than once");
    assert_eq!(LaunchFault::Never.message(), "workload launch marker was not created");
}

#[test]
fn abandoned_trials_cancel_their_sessions() {
    let mut cleanup = Cleanup::new();
    cleanup.track("a".into());
    cleanup.track("b".into());
    assert_eq!(cleanup.to_cancel(), ["a", "b"]);
    cleanup.disarm();
    assert!(cleanup.to_cancel().is_empty());
}

#[test]
fn headers_resume_where_the_records_end() {
    let line = b"{\"offsets\":{\"stdout\":3,\"stderr\":4}}";
    assert!(check_header(line, (3, 4)).is_ok());
    assert!(matches!(
        check_header(line, (2, 4)),
        Err(HeaderFault::Stdout(PositionFault::Differs { expected: 2, actual: 3 }))
    ));
    assert!(matches!(check_header(line, (3, 5)), Err(HeaderFault::Stderr(_))));
    assert!(matches!(check_header(b"{}", (0, 0)), Err(HeaderFault::NoOffsets)));
    assert!(matches!(check_header(b"{", (0, 0)), Err(HeaderFault::Invalid)));
    match check_header(b"{\"error\":\"no\"}", (0, 0)) {
        Err(HeaderFault::Refused(error)) => assert_eq!(error, "no"),
        _ => panic!("expected a refusal"),
    }
    assert!(check_header_found(JsonAt::Missing, &JsonAt::Object, &number(1), &number(2), (1, 2)).is_ok());
    assert_eq!(
        check_position(&JsonAt::Null, 1).unwrap_err().message("stdout", "{}"),
        "missing integer field \"stdout\" in {}"
    );
    assert_eq!(
        check_position(&number(2), 1).unwrap_err().message("stdout", "{}"),
        "expected stdout offset 1, got 2"
    );
}

#[test]
fn answers_are_what_was_expected() {
    assert_eq!(header_end(b"ab\ncd\n"), Some(2));
    assert_eq!(header_end(b"ab"), None);
    let refusal = b"{\"error\":\"session does not exist\"}\n";
    assert!(expect_error(false, find_error(refusal), "does not exist").is_ok());
    assert!(matches!(
        expect_error(false, find_error(refusal), "ahead"),
        Err(AnswerFault::OtherError(_))
    ));
    assert!(matches!(expect_error(true, find_error(refusal), "x"), Err(AnswerFault::Status)));
    assert!(matches!(expect_error(false, find_error(b"{}\n"), "x"), Err(AnswerFault::NoError)));
    assert!(matches!(expect_error(false, find_error(b"{}"), "x"), Err(AnswerFault::NoHeader)));
    assert!(expect_success(true, find_error(b"{}\nbody")).is_ok());
    assert!(matches!(expect_success(true, find_error(refusal)), Err(AnswerFault::OtherError(_))));
    assert!(matches!(expect_success(false, find_error(b"{}\n")), Err(AnswerFault::Status)));
    assert!(matches!(expect_success(true, find_error(b"x\n")), Err(AnswerFault::Invalid)));
}

#[test]
fn cancellations_have_to_kill() {
    let line = b"{\"outcome\":\"cancel_won\",\"exit\":{\"signal\":9}}".to_vec();
    assert!(check_cancel(&vec![line.clone()], Some(137)).is_ok());
    assert_eq!(check_cancel(&vec![line.clone(), line.clone()], Some(137)), Err(CancelFault::Lines));
    assert_eq!(check_cancel(&vec![line], Some(1)), Err(CancelFault::Status));
    let won = JsonAt::Text("cancel_won".into());
    assert_eq!(check_cancel_found(1, &won, &number(15), Some(137)), Err(CancelFault::Signal));
    let late = JsonAt::Text("already_exited".into());
    assert_eq!(check_cancel_found(1, &late, &number(9), Some(137)), Err(CancelFault::Outcome));
    assert_eq!(check_cancel_found(1, &JsonAt::Invalid, &number(9), Some(137)), Err(CancelFault::Invalid));
}

#[test]
fn seeds_make_trials_reproducible() {
    let mut rng = Lcg::new(0);
    assert_eq!(rng.next_u64(), 7806831264735756412);
    let mut again = Lcg::new(1);
    assert_eq!(again.next_u64(), 7806831264735756412);
    assert_eq!(again.next_u64(), rng.next_u64());
    assert_eq!(default_seed(Some((1u128 << 64) + 5)), 5);
    assert_eq!(default_seed(None), 1);
    assert_eq!(trial_seed(Mode::Smoke, None, Some(9)), 0);
    assert_eq!(trial_seed(Mode::Chaos, None, Some(9)), 9);
    assert_eq!(trial_seed(Mode::Chaos, Some(4), Some(9)), 4);
    assert_eq!(trial_cycles(Mode::Smoke, 9), 3);
    assert_eq!(trial_cycles(Mode::Chaos, 9), 9);
}

#[test]
fn plans_cut_as_often_as_asked() {
    let mut smoke = TrialPlan::new(Mode::Smoke, 5, 99);
    let mut delays = Vec::new();
    while let Some(cut) = smoke.next() {
        assert_eq!(cut.create, delays.is_empty());
        assert!(!cut.open_barrier);
        delays.push(cut.delay);
    }
    assert_eq!(delays, [180, 220, 160]);
    let mut chaos = TrialPlan::new(Mode::Chaos, 1, 6);
    let mut cuts = Vec::new();
    while let Some(cut) = chaos.next() {
        cuts.push(cut);
    }
    assert_eq!(cuts.len(), 6);
    assert_eq!(cuts[0].delay, 35 + 7806831264735756412 % 145);
    assert!(cuts.iter().all(|cut| (35..180).contains(&cut.delay)));
    let open: Vec<bool> = cuts.iter().map(|cut| cut.open_barrier).collect();
    assert_eq!(open, [false, false, false, true, false, false]);
    assert_eq!(output_counts(Mode::Smoke, 9), (30, 50));
    assert_eq!(output_counts(Mode::Chaos, 2), (60, 60));
    assert_eq!(output_counts(Mode::Chaos, 10), (120, 120));
    assert_eq!(output_counts(Mode::Chaos, usize::MAX), (usize::MAX, usize::MAX));
}

#[test]
fn controllers_watch_their_attachment() {
    assert!(resume_from(true, 1, 2).is_none());
    assert_eq!(resume_from(false, 1, 2).unwrap().stderr, 2);
    assert_eq!(watch(true, 0, Some(0)), WatchStep::Finish);
    assert_eq!(watch(false, 999_999, Some(1)), WatchStep::Wait);
    assert_eq!(watch(false, 1_000_000, Some(1)), WatchStep::Kill);
    assert_eq!(watch(false, u128::MAX, None), WatchStep::Wait);
    assert_eq!(finish(Some(42), false, Some(42)), Ok(false));
    assert_eq!(finish(None, true, None), Ok(true));
    assert_eq!(
        finish(Some(1), false, Some(42)).unwrap_err().message("exit status: 1"),
        "expected terminal exit 42, got exit status: 1"
    );
    assert_eq!(finish(Some(0), false, None), Err(FinishFault::Early));
    assert_eq!(
        FinishFault::Early.message("exit status: 0"),
        "attachment ended before the requested disconnect point: exit status: 0"
    );
    assert_eq!(process_code(Some(3), None), 3);
    assert_eq!(process_code(None, Some(9)), 137);
    assert_eq!(process_code(None, None), 129);
}

#[test]
fn the_input_is_made_of_numbered_records() {
    let input = deterministic_stdin_input(STDIN_RECORD_SIZE * 300);
    assert_eq!(&input[..4], b"PKIN");
    let second = &input[STDIN_RECORD_SIZE * 258..];
    assert_eq!(&second[..4], b"PKIN");
    assert_eq!(&second[4..12], &258_u64.to_le_bytes());
    for index in [64 * 258 + 12, 64 * 258 + 31, 64 * 258 + 62, 64 * 258 + 63] {
        let record = (index / 64) as u64;
        let within = index % 64;
        let mixed = record
            .wrapping_mul(0x9e37_79b9_7f4a_7c15)
            .rotate_left((within % 31) as u32)
            ^ (within as u64).wrapping_mul(0xd1b5_4a32_d192_ed03);
        assert_eq!(deterministic_stdin_byte(index), (mixed >> ((within % 8) * 8)) as u8);
    }
    assert!(raw_chunk_matches_input(&input[70..90], 70, input.len()));
    assert!(!raw_chunk_matches_input(&input[70..90], 71, input.len()));
    assert!(!raw_chunk_matches_input(&input[70..90], 70, 80));
    assert!(!raw_chunk_matches_input(b"x", u64::MAX, 80));
}

#[test]
fn digests_are_reported() {
    let digest = sha256_hex(b"abc");
    assert_eq!(digest, "ba7816bf8f01cfea414140de5dae2223b00361a396177a9cb410ff61f20015ad");
    assert_eq!(
        report("stdin-replay stdout ", 128, "ff"),
        "stdin-replay stdout len=128 records=2 sha256=ff\n"
    );
}

#[test]
fn the_command_accepts_only_the_input() {
    let input = deterministic_stdin_input(100);
    let mut state = WorkloadInput::new(100);
    state.accept(&input[..60]).unwrap();
    assert_eq!(state.finish(), Err(InputFault::Short { accepted: 60, expected: 100 }));
    let wrong = state.accept(&input[..10]).unwrap_err();
    assert_eq!(wrong.message(), "stdin workload mismatch at accepted offset 60");
    assert_eq!(wrong.record(), "stdin mismatch at accepted offset 60\n");
    state.accept(&input[60..]).unwrap();
    assert!(state.finish().is_ok());
    let beyond = state.accept(b"x").unwrap_err();
    assert_eq!(beyond, InputFault::Beyond { at: 100 });
    assert_eq!(beyond.message(), "stdin workload received bytes beyond expected EOF at 100");
    assert_eq!(beyond.record(), "received bytes beyond expected EOF at 100\n");
    assert_eq!(
        InputFault::Short { accepted: 1, expected: 2 }.message(),
        "stdin workload ended at 1 bytes, expected 2"
    );
}

fn progress(run: &mut ReplayRun, accepted: u64) {
    run.event(ReplayEvent::Progress { accepted }).unwrap();
}

#[test]
fn transports_are_cut_three_times_and_once_behind_the_end() {
    let mut run = ReplayRun::new(0, STDIN_RECORDS * STDIN_RECORD_SIZE);
    assert_eq!(run.action(), ReplayAction::AwaitTransport { previous: None });
    run.event(ReplayEvent::Transport { pid: 10 }).unwrap();
    assert_eq!(run.action(), ReplayAction::AwaitProgress);
    progress(&mut run, 5);
    assert_eq!(run.action(), ReplayAction::Kill { pid: 10 });
    run.event(ReplayEvent::Killed).unwrap();
    for pid in [11, 12] {
        assert_eq!(run.action(), ReplayAction::ReadProgress);
        progress(&mut run, 5);
        assert_eq!(run.action(), ReplayAction::AwaitTransport { previous: Some(pid - 1) });
        run.event(ReplayEvent::Transport { pid }).unwrap();
        match run.action() {
            ReplayAction::Sleep { millis } => assert!((15..70).contains(&millis)),
            _ => panic!("expected a delay"),
        }
        run.event(ReplayEvent::Slept).unwrap();
        progress(&mut run, 9);
        assert_eq!(run.action(), ReplayAction::LookAtProducer);
        run.event(ReplayEvent::Producer { done: false }).unwrap();
        assert_eq!(run.action(), ReplayAction::Kill { pid });
        run.event(ReplayEvent::Killed).unwrap();
    }
    assert_eq!(run.action(), ReplayAction::JoinProducer);
    run.event(ReplayEvent::Joined).unwrap();
    progress(&mut run, 20);
    run.event(ReplayEvent::Transport { pid: 13 }).unwrap();
    assert_eq!(run.action(), ReplayAction::Sleep { millis: 25 });
    run.event(ReplayEvent::Slept).unwrap();
    progress(&mut run, 0);
    assert_eq!(run.action(), ReplayAction::AwaitProgress);
    progress(&mut run, 30);
    run.event(ReplayEvent::Killed).unwrap();
    assert_eq!(run.action(), ReplayAction::Finish);
    assert_eq!(run.killed, [10, 11, 12, 13]);
}

#[test]
fn a_trial_without_a_late_loss_fails() {
    let mut run = ReplayRun::new(3, 64);
    run.event(ReplayEvent::Transport { pid: 1 }).unwrap();
    let refused = run.event(ReplayEvent::Progress { accepted: 64 }).unwrap_err();
    assert_eq!(
        refused.message(),
        "refusing to kill transport 1: accepted prefix 64 is not proper for 64 bytes"
    );
    progress(&mut run, 1);
    run.event(ReplayEvent::Killed).unwrap();
    progress(&mut run, 64);
    run.event(ReplayEvent::Joined).unwrap();
    let failed = run.event(ReplayEvent::Progress { accepted: 64 }).unwrap_err();
    assert_eq!(failed, ReplayFault::NoLossAfterEnd);
    assert_eq!(
        failed.message(),
        "stdin replay did not lose a transport after finite producer EOF"
    );
    assert!(proper_prefix(1, 2) && !proper_prefix(0, 2) && !proper_prefix(2, 2));
}

fn replayed() -> Vec<TransportEvent> {
    let event = |pid, kind| TransportEvent { pid, kind };
    vec![
        event(1, EventKind::ClientHello { data: true, stdin_eof: None }),
        event(1, EventKind::ServerHello { stdin: Some(0) }),
        event(2, EventKind::ClientHello { data: true, stdin_eof: None }),
        event(2, EventKind::ServerHello { stdin: Some(40) }),
        event(2, EventKind::RawChunk { offset: Some(40), valid: true }),
        event(3, EventKind::ClientHello { data: true, stdin_eof: Some(100) }),
        event(3, EventKind::ServerHello { stdin: Some(70) }),
        event(4, EventKind::ClientHello { data: false, stdin_eof: Some(100) }),
        event(4, EventKind::Other),
    ]
}

#[test]
fn records_have_to_show_a_replay() {
    let events = replayed();
    assert!(validate_stdin_replay_events(&events, 100, 2).is_ok());
    let cases: Vec<(Vec<TransportEvent>, usize, EventsFault, &str)> = vec![
        (events.clone(), 1, EventsFault::FewKills { killed: 1 }, "stdin replay killed only 1 transports"),
        (
            events.clone(),
            3,
            EventsFault::FewTransports { data: 3, killed: 3 },
            "stdin replay did not restart data transports repeatedly: data_pids=3 killed=3",
        ),
        (
            {
                let mut broken = events.clone();
                broken[4].kind = EventKind::RawChunk { offset: Some(40), valid: false };
                broken
            },
            2,
            EventsFault::InvalidChunk,
            "transport saw raw stdin bytes that did not match the framed input",
        ),
        (
            {
                let mut broken = events.clone();
                broken[8].kind = EventKind::RawMismatch;
                broken
            },
            2,
            EventsFault::Mismatch { index: 8 },
            "transport logged a raw stdin mismatch: {}",
        ),
        (
            {
                let mut idle = events.clone();
                idle[3].kind = EventKind::ServerHello { stdin: None };
                idle[6].kind = EventKind::ServerHello { stdin: Some(100) };
                idle
            },
            2,
            EventsFault::NoResume,
            "no resumed inner broker hello reported a nonzero proper stdin prefix",
        ),
        (
            {
                let mut shifted = events.clone();
                shifted[4].kind = EventKind::RawChunk { offset: Some(41), valid: true };
                shifted
            },
            2,
            EventsFault::NoSuffix,
            "no replayed stdin chunk started at the broker-reported suffix offset",
        ),
        (
            {
                let mut open = events.clone();
                open[5].kind = EventKind::ClientHello { data: true, stdin_eof: None };
                open
            },
            2,
            EventsFault::NoEnd,
            "no reconnect carried finite-producer EOF to a broker missing stdin suffix",
        ),
    ];
    for (events, killed, fault, message) in cases {
        let found = validate_stdin_replay_events(&events, 100, killed).unwrap_err();
        assert_eq!(found, fault);
        assert_eq!(found.message("{}"), message);
    }
}

#[test]
fn transports_write_down_what_they_see() {
    let event = read_event(b"{\"event\":\"client_hello\",\"pid\":7,\"action\":null,\"stdin_eof\":9}").unwrap();
    assert_eq!(event, TransportEvent { pid: 7, kind: EventKind::ClientHello { data: true, stdin_eof: Some(9) } });
    let event = read_event(b"{\"event\":\"raw_stdin_chunk\",\"offset\":3,\"valid\":true}").unwrap();
    assert_eq!(event, TransportEvent { pid: 0, kind: EventKind::RawChunk { offset: Some(3), valid: true } });
    assert_eq!(read_event(b"{\"event\":\"raw_stdin_mismatch\"}").unwrap().kind, EventKind::RawMismatch);
    assert_eq!(read_event(b"{\"event\":\"server_hello\",\"stdin\":4}").unwrap().kind, EventKind::ServerHello { stdin: Some(4) });
    assert_eq!(read_event(b"{\"pid\":1}").unwrap().kind, EventKind::Other);
    assert!(read_event(b"{").is_none());
    let none = JsonAt::Missing;
    let found = event_found(&JsonAt::Text("client_hello".into()), &number(3), &JsonAt::Text("stdin-eof".into()), &none, &none, &none, &none);
    assert_eq!(found.unwrap().kind, EventKind::ClientHello { data: false, stdin_eof: None });

    let opening = read_client_opening(b"{\"action\":\"stdin-eof\",\"stdin_eof\":8}").unwrap();
    assert_eq!(opening.action.unwrap(), "stdin-eof");
    assert_eq!((opening.stdin_start, opening.stdin_eof), (0, Some(8)));
    assert!(read_client_opening(b"x").is_none());
    match read_server_opening(b"{\"offsets\":{\"stdin\":1,\"stdout\":2},\"stdin_eof\":true,\"exit\":{}}") {
        ServerOpening::Hello { stdin, stdout, stderr, stdin_eof, exit } => {
            assert_eq!((stdin, stdout, stderr), (1, Some(2), None));
            assert!(stdin_eof && exit);
        }
        _ => panic!("expected a hello"),
    }
    assert!(matches!(read_server_opening(b"{\"error\":\"x\"}"), ServerOpening::Error(_)));
    assert!(matches!(read_server_opening(b"{}"), ServerOpening::NoStdin));
    assert!(matches!(read_server_opening(b"{"), ServerOpening::Invalid));
}
