use pipekeep::input::InputState;
use pipekeep::json::JsonAt;
use pipekeep::outer::{
    accept_handshake, attempt_hello, check_eof_found, check_eof_reply, eof_hello, first_fatal,
    opening_error, opening_error_of, relayed, wind_up, AttemptResult, Fatal, OuterError, OuterRun,
    OuterStep, RawStdinSender, RawStdinStep, Stop, FIRST_BACKOFF, LAST_BACKOFF,
};
use pipekeep::protocol::{AllOffsets, ClientAction, ExitResult, OutputOffsets, ServerHello};

fn server(stdout: u64, stderr: u64, nobuffer: bool) -> ServerHello {
    ServerHello {
        attachment: None,
        stdin_eof_at: None,
        session: None,
        offsets: AllOffsets { stdin: 0, stdout, stderr },
        nobuffer,
        stdin_eof: false,
        stdout_eof: None,
        stderr_eof: None,
        exit: None,
        output: None,
    }
}

#[test]
fn only_the_first_attempt_creates() {
    let delivered = OutputOffsets { stdout: 3, stderr: 4 };
    let input = InputState { start: 2, eof: Some(9) };
    let hello = attempt_hello(true, delivered, input);
    assert_eq!(hello.offsets, None);
    let hello = attempt_hello(false, delivered, input);
    assert_eq!(hello.offsets, Some(delivered));
    assert_eq!(hello.stdin_start, 2);
    assert_eq!(hello.stdin_eof, Some(9));
}

#[test]
fn openings_tell_errors_from_handshakes() {
    assert!(opening_error(b"{\"offsets\":{}}").unwrap().is_none());
    assert_eq!(opening_error(b"{\"error\":\"no\"}").unwrap().unwrap(), "no");
    let refused = opening_error(b"Welcome to host").unwrap_err();
    assert_eq!(refused.message(), "transport returned an invalid opening JSON message");
    assert_eq!(opening_error_of(JsonAt::Text("x".into())).unwrap().unwrap(), "x");
    assert!(opening_error_of(JsonAt::Missing).unwrap().is_none());
    assert!(opening_error_of(JsonAt::Invalid).is_err());
}

#[test]
fn delivered_positions_never_go_back() {
    let mut delivered = OutputOffsets { stdout: 5, stderr: 5 };
    let refused = accept_handshake(&mut delivered, &server(4, 5, true)).unwrap_err();
    assert_eq!(refused.message(), "server moved an output position backwards");
    let refused = accept_handshake(&mut delivered, &server(6, 5, false)).unwrap_err();
    assert_eq!(
        refused.message(),
        "buffered server cannot provide the requested output positions"
    );
    assert_eq!(delivered, OutputOffsets { stdout: 5, stderr: 5 });
    assert!(accept_handshake(&mut delivered, &server(6, 5, true)).is_ok());
    assert_eq!(delivered, OutputOffsets { stdout: 6, stderr: 5 });
}

#[test]
fn an_exit_needs_everything_delivered() {
    let mut hello = server(0, 0, false);
    hello.exit = Some(ExitResult { code: None, signal: Some(15) });
    hello.stdout_eof = Some(4);
    hello.stderr_eof = Some(0);
    let all = OutputOffsets { stdout: 4, stderr: 0 };
    assert!(matches!(relayed(&hello, all), AttemptResult::Exited(143)));
    let less = OutputOffsets { stdout: 3, stderr: 0 };
    assert!(matches!(relayed(&hello, less), AttemptResult::Disconnected { opened: true }));
}

#[test]
fn disconnections_back_off_and_never_create_again() {
    let mut run = OuterRun::new();
    assert!(run.create);
    let mut pauses = Vec::new();
    for _ in 0..8 {
        match run.after(AttemptResult::Disconnected { opened: false }) {
            OuterStep::Pause(pause) => pauses.push(pause),
            _ => panic!("expected a pause"),
        }
        assert!(!run.create);
    }
    assert_eq!(pauses, [100, 200, 400, 800, 1600, 3200, 5000, 5000]);
    assert_eq!((FIRST_BACKOFF, LAST_BACKOFF), (100, 5000));
    assert!(matches!(
        run.after(AttemptResult::Disconnected { opened: true }),
        OuterStep::Pause(100)
    ));
    // A session that was once reached is not created anew.
    let step = run.after(AttemptResult::ServerError("session does not exist".into()));
    match step {
        OuterStep::Fail(error) => {
            assert_eq!(error.message(), "remote pipekeep: session does not exist");
        }
        _ => panic!("expected a failure"),
    }
}

#[test]
fn a_session_that_never_was_is_created_after_all() {
    let mut run = OuterRun::new();
    run.after(AttemptResult::Disconnected { opened: false });
    assert!(matches!(
        run.after(AttemptResult::ServerError("session does not exist".into())),
        OuterStep::Again
    ));
    assert!(run.create);
    assert!(matches!(
        run.after(AttemptResult::ServerError("session already has an attached client".into())),
        OuterStep::Pause(100)
    ));
    assert!(matches!(run.after(AttemptResult::Exited(3)), OuterStep::Exit(3)));
}

#[test]
fn input_goes_on_where_it_was_left() {
    let mut sender = RawStdinSender::begin(3, None, false).unwrap();
    match sender.data(3, b"abc") {
        RawStdinStep::Write(bytes) => assert_eq!(bytes, b"abc"),
        _ => panic!("expected bytes"),
    }
    assert!(matches!(sender.data(7, b"x"), RawStdinStep::Reattach));
    assert!(matches!(sender.eof(6), RawStdinStep::DeclareEof(6)));
    match sender.eof(5) {
        RawStdinStep::Fail(error) => {
            assert_eq!(error.message(), "server stdin position is beyond local EOF");
        }
        _ => panic!("expected a failure"),
    }
    let declared = RawStdinSender::begin(6, Some(6), false).unwrap();
    assert!(matches!(declared.eof(6), RawStdinStep::Rest));
    let moved = RawStdinSender::begin(6, Some(5), false).unwrap();
    match moved.eof(6) {
        RawStdinStep::Fail(error) => {
            assert_eq!(error.message(), "declared stdin EOF changed during attachment");
        }
        _ => panic!("expected a failure"),
    }
    assert!(RawStdinSender::begin(6, None, true).is_none());
}

#[test]
fn the_end_of_input_has_to_be_confirmed() {
    let hello = eof_hello(12);
    assert_eq!(hello.action, Some(ClientAction::StdinEof));
    assert_eq!(hello.stdin_eof, Some(12));
    assert!(check_eof_reply(b"{\"stdin_eof_at\":12}", 12).is_none());
    assert_eq!(
        check_eof_reply(b"{\"stdin_eof_at\":11}", 12).unwrap().message(),
        "remote stdin EOF response did not confirm byte 12"
    );
    assert_eq!(
        check_eof_reply(b"{\"error\":\"late\"}", 12).unwrap().message(),
        "remote stdin EOF: late"
    );
    assert!(matches!(check_eof_reply(b"{", 12), Some(OuterError::InvalidOpening)));
    let number = JsonAt::Number { unsigned: Some(12), signed: Some(12) };
    assert!(check_eof_found(JsonAt::Missing, number, 12).is_none());
    assert!(check_eof_found(JsonAt::Missing, JsonAt::Null, 12).is_some());
    assert_eq!(
        OuterError::InvalidHandshake.message(),
        "transport returned an invalid pipekeep handshake"
    );
}

#[test]
fn a_stopped_attempt_is_wound_up() {
    let ended = wind_up(Stop::Child { failed: false });
    assert!(!ended.finish_transport && !ended.wait_child);
    assert!(ended.await_stdout && ended.await_stderr);
    let sender = wind_up(Stop::Sender);
    assert!(sender.finish_transport && !sender.wait_child);
    let stdout = wind_up(Stop::Stdout { failed: false });
    assert!(stdout.wait_child && !stdout.await_stdout && stdout.await_stderr);
    assert_eq!(first_fatal(Stop::Sender, false, true), Some(Fatal::Stderr));
    assert_eq!(first_fatal(Stop::Child { failed: true }, true, true), Some(Fatal::Child));
    assert_eq!(first_fatal(Stop::Stdout { failed: false }, true, false), None);
}

#[test]
fn output_arrives_once_however_often_the_transport_is_lost() {
    let stdout = b"remote output";
    let mut delivered = OutputOffsets { stdout: 0, stderr: 0 };
    let mut received = Vec::new();
    for count in [4_usize, 0, 7, 2] {
        // A buffered server begins where the client asks it to.
        let offer = server(delivered.stdout, delivered.stderr, false);
        assert!(accept_handshake(&mut delivered, &offer).is_ok());
        let at = delivered.stdout as usize;
        received.extend_from_slice(&stdout[at..at + count]);
        delivered.stdout += count as u64;
    }
    assert_eq!(received, stdout);
}
