use pipekeep::broker::opening::AttachKind;
use pipekeep::broker::Stream;
use pipekeep::json::{capability_found, error_of, has_capability, read_error, JsonAt};
use pipekeep::output::OutputFact;
use pipekeep::protocol::{
    AllOffsets, BrokerRequest, CancelOutcome, ClientAction, ClientHello, ExitResult, Frame,
    OutputOffsets, ProtocolError, ServerHello,
};
use pipekeep::server::{
    attach_request, await_broker, bounded_cancel_found, cancel_control, cancel_found, check_hello,
    check_reply, check_reply_found, control_request, is_error_reply, open, pid_found, reach_broker,
    read_bounded_cancel, read_cancel, read_pid, start_failure_message, AttachmentOpen, ChildState, Control,
    ControlError, ErrorResponse, ProxyError, RawForward, RawForwardStep, ReachStep, Relay, RelayStep, ServerFlags,
    ServerOpening, ServerRefusal, StartStep, RAW_CHUNK,
};

fn flags() -> ServerFlags {
    ServerFlags {
        force: false,
        group_pidfd: false,
        framed: false,
        output_bounded: false,
        output_limit: None,
    }
}

fn hello(attachment: Option<&str>) -> ServerHello {
    ServerHello {
        attachment: attachment.map(|name| name.to_owned()),
        stdin_eof_at: None,
        session: None,
        offsets: AllOffsets { stdin: 2, stdout: 10, stderr: 20 },
        nobuffer: false,
        stdin_eof: false,
        stdout_eof: None,
        stderr_eof: None,
        exit: None,
        output: None,
    }
}

#[test]
fn openings_create_or_attach() {
    let fresh = ClientHello::default();
    assert!(matches!(open(flags(), fresh), ServerOpening::Create(_)));
    let resumed = ClientHello { offsets: Some(OutputOffsets { stdout: 1, stderr: 2 }), ..fresh };
    match open(flags(), resumed) {
        ServerOpening::Attach(found) => {
            assert_eq!(found.offsets, OutputOffsets { stdout: 1, stderr: 2 });
            assert_eq!(found.kind, AttachKind::Raw);
            match attach_request(found) {
                BrokerRequest::Attach { offsets, .. } => assert_eq!(offsets.stdout, 1),
                _ => panic!("expected a raw attachment"),
            }
        }
        _ => panic!("expected an attachment"),
    }
    let eof = ClientHello { action: Some(ClientAction::StdinEof), stdin_eof: Some(7), ..fresh };
    assert_eq!(open(flags(), eof), ServerOpening::DeclareEof { offset: 7 });
}

#[test]
fn openings_are_refused_by_their_first_fault() {
    let fresh = ClientHello::default();
    let resumed = ClientHello { offsets: Some(OutputOffsets { stdout: 0, stderr: 0 }), ..fresh };
    let eof = ClientHello { action: Some(ClientAction::StdinEof), ..fresh };
    let cases = [
        (ServerFlags { group_pidfd: true, ..flags() }, resumed, ServerRefusal::GroupOnlyNew),
        (ServerFlags { output_limit: Some(1), ..flags() }, resumed, ServerRefusal::LimitOnlyNew),
        (
            ServerFlags { framed: true, output_bounded: true, group_pidfd: true, ..flags() },
            fresh,
            ServerRefusal::LimitRequired,
        ),
        (ServerFlags { framed: true, ..flags() }, eof, ServerRefusal::FramedControl),
        (ServerFlags { force: true, ..flags() }, eof, ServerRefusal::ForceControl),
        (flags(), eof, ServerRefusal::EofWithoutPosition),
        (ServerFlags { force: true, ..flags() }, fresh, ServerRefusal::ForceCreates),
        (
            flags(),
            ClientHello { stdin_start: 5, stdin_eof: Some(4), ..fresh },
            ServerRefusal::EofBeforeStart,
        ),
    ];
    for (flags, hello, refusal) in cases {
        assert_eq!(open(flags, hello), ServerOpening::Refuse(refusal));
        assert!(!refusal.message().is_empty());
    }
    assert_eq!(ServerRefusal::EofBeforeStart.message(), "stdin_eof is before stdin_start");
}

#[test]
fn a_broker_has_to_confirm_the_form() {
    assert_eq!(check_hello(AttachKind::Raw, &hello(None)), None);
    assert_eq!(check_hello(AttachKind::Framed, &hello(Some("framed-v1"))), None);
    assert_eq!(
        check_hello(AttachKind::Framed, &hello(None)),
        Some(ProxyError::FramedUnconfirmed)
    );
    assert_eq!(
        check_hello(AttachKind::Bounded, &hello(Some("framed-v1"))),
        Some(ProxyError::BoundedUnconfirmed)
    );
    let mut bounded = hello(Some("framed-output-v1"));
    let mut fact = OutputFact::new(64);
    fact.stdout.prefix_complete = false;
    fact.stderr.prefix_complete = false;
    bounded.output = Some(fact);
    assert_eq!(check_hello(AttachKind::Bounded, &bounded), None);
}

#[test]
fn raw_relays_skip_what_was_delivered() {
    let mut relay = Relay::begin(AttachKind::Raw, &hello(None));
    match relay.frame(&Frame::StdoutData { offset: 8, data: b"abcd".to_vec() }).unwrap() {
        RelayStep::Write { stream, data } => {
            assert_eq!(stream, Stream::Stdout);
            assert_eq!(data, b"cd");
        }
        _ => panic!("expected bytes"),
    }
    assert_eq!(relay.stdout_position, 12);
    assert!(matches!(
        relay.frame(&Frame::StdoutData { offset: 8, data: b"abcd".to_vec() }).unwrap(),
        RelayStep::Quiet
    ));
    let gap = relay.frame(&Frame::StderrData { offset: 21, data: b"x".to_vec() }).unwrap_err();
    assert_eq!(gap, ProxyError::OutputGap(20));
    assert_eq!(gap.message(), "broker output contains a gap at byte 20");
    let exit = ExitResult { code: Some(4), signal: None };
    assert!(matches!(relay.frame(&Frame::Exit(exit)).unwrap(), RelayStep::End(4)));
    assert_eq!(relay.ended(), 0);
}

#[test]
fn framed_relays_are_contiguous() {
    let mut relay = Relay::begin(AttachKind::Framed, &hello(Some("framed-v1")));
    assert!(matches!(
        relay.frame(&Frame::StdoutData { offset: 10, data: b"ab".to_vec() }).unwrap(),
        RelayStep::Forward
    ));
    assert_eq!(
        relay.frame(&Frame::StdoutData { offset: 10, data: b"ab".to_vec() }).unwrap_err(),
        ProxyError::NotContiguous
    );
    assert_eq!(
        relay.frame(&Frame::StdinPosition { offset: 1 }).unwrap_err(),
        ProxyError::ReceiptRegressed
    );
    assert_eq!(
        relay.frame(&Frame::StdinEof { offset: 1 }).unwrap_err(),
        ProxyError::WrongDirection
    );
    assert_eq!(relay.ended(), 1);
}

#[test]
fn bounded_relays_end_where_everything_was_delivered() {
    let mut opening = hello(Some("framed-output-v1"));
    let mut fact = OutputFact::new(64);
    opening.output = Some(fact);
    let mut relay = Relay::begin(AttachKind::Bounded, &opening);
    assert!(matches!(relay.frame(&Frame::OutputState(fact)).unwrap(), RelayStep::Forward));
    fact.stdout.retained = 10;
    fact.stderr.retained = 19;
    assert_eq!(relay.frame(&Frame::OutputEnd(fact)).unwrap_err(), ProxyError::EndMismatch);
    fact.stderr.retained = 20;
    assert!(matches!(relay.frame(&Frame::OutputEnd(fact)).unwrap(), RelayStep::ForwardEnd(1)));
    fact.limit = 65;
    assert_eq!(relay.frame(&Frame::OutputState(fact)).unwrap_err(), ProxyError::LimitChanged);
}

#[test]
fn raw_input_is_read_up_to_its_declared_end() {
    let mut forward = RawForward { position: 0, eof: Some(5) };
    assert_eq!(forward.next(false), RawForwardStep::Read(5));
    match forward.frame(b"hello".to_vec()).unwrap() {
        Frame::StdinData { offset, data } => {
            assert_eq!(offset, 0);
            assert_eq!(data, b"hello");
        }
        _ => panic!("expected data"),
    }
    assert_eq!(forward.next(false), RawForwardStep::Rest);
    assert_eq!(RawForward { position: 0, eof: None }.next(false), RawForwardStep::Read(RAW_CHUNK));
    assert_eq!(RawForward { position: 0, eof: None }.next(true), RawForwardStep::Rest);
    assert_eq!(
        RawForward { position: 6, eof: Some(5) }.next(false),
        RawForwardStep::Fail(ProxyError::BeyondDeclaredEof)
    );
    let mut last = RawForward { position: u64::MAX, eof: None };
    assert_eq!(
        last.frame(b"x".to_vec()).unwrap_err(),
        ProxyError::Protocol(ProtocolError::PositionOverflow)
    );
}

#[test]
fn a_session_that_may_have_started_is_kept() {
    let running = ChildState::Running;
    assert_eq!(await_broker(true, true, running, false, false), StartStep::Connected);
    assert_eq!(await_broker(false, false, running, true, true), StartStep::Poll);
    assert_eq!(await_broker(false, true, running, true, true), StartStep::ReadinessUnknown);
    assert_eq!(await_broker(false, true, running, false, false), StartStep::NotReady);
    assert_eq!(
        await_broker(false, false, ChildState::Exited, true, true),
        StartStep::ExitedUnknown
    );
    assert_eq!(
        await_broker(false, false, ChildState::Exited, false, false),
        StartStep::ExitedEarly
    );
    assert_eq!(
        await_broker(false, false, ChildState::WaitFailed, true, false),
        StartStep::WaitUnknown
    );
    assert_eq!(
        start_failure_message(StartStep::ExitedEarly, "", "", "exit status: 1"),
        "session broker exited during startup (exit status: 1)"
    );
    assert_eq!(
        start_failure_message(StartStep::NotReady, "no room", "", ""),
        "session broker failed: no room"
    );
}

#[test]
fn control_replies_are_read() {
    assert_eq!(read_pid(b"{\"pid\":123}").unwrap(), 123);
    assert_eq!(read_pid(b"{\"pid\":-5}").unwrap(), -5);
    assert!(matches!(read_pid(b"{}"), Err(ControlError::NoPid)));
    assert!(matches!(read_pid(b"x"), Err(ControlError::Invalid)));
    match check_reply(b"{\"error\":\"no session\"}") {
        Some(ControlError::Refused(error)) => assert_eq!(error, "no session"),
        _ => panic!("expected a refusal"),
    }
    assert!(check_reply_found(JsonAt::Missing).is_none());
    assert_eq!(pid_found(JsonAt::Missing, &JsonAt::Number { unsigned: Some(4), signed: Some(4) }).unwrap(), 4);
    assert_eq!(
        pid_found(JsonAt::Missing, &JsonAt::Null).unwrap_err().message(),
        "broker returned an invalid PID response"
    );
}

#[test]
fn cancellations_report_the_exit_of_the_command() {
    let exit = || Some(Ok(ExitResult { code: None, signal: Some(9) }));
    let won = || Some(Ok(CancelOutcome::CancelWon));
    let named = b"{\"session\":{\"capabilities\":[\"other\",\"group-pidfd-cancel-v1\"]}}";
    assert!(has_capability(named, "group-pidfd-cancel-v1"));
    assert!(!has_capability(named, "finite-output-v1"));
    assert_eq!(read_cancel(named, true, exit(), won()).unwrap().process_code(), 137);
    assert!(matches!(read_cancel(b"{}", true, exit(), won()), Err(ControlError::Unverified)));
    assert_eq!(read_cancel(b"{}", false, exit(), won()).unwrap().process_code(), 137);
    assert_eq!(cancel_found(JsonAt::Missing, true, true, exit(), won()).unwrap().process_code(), 137);
    assert!(matches!(
        cancel_found(JsonAt::Missing, false, false, None, won()),
        Err(ControlError::NoExit)
    ));
    assert!(matches!(
        cancel_found(JsonAt::Missing, false, false, exit(), None),
        Err(ControlError::NoOutcome)
    ));
}

#[test]
fn the_error_of_a_reply_comes_before_its_other_members() {
    let bad = || Some(Err("no exit".to_owned()));
    let worse = || Some(Err("no outcome".to_owned()));
    let refused = b"{\"error\":\"late\",\"exit\":7,\"outcome\":7}";
    assert_eq!(read_cancel(refused, true, bad(), worse()).unwrap_err().message(), "late");
    assert!(matches!(read_cancel(b"{}", true, bad(), worse()), Err(ControlError::Unverified)));
    assert_eq!(read_cancel(b"{}", false, bad(), worse()).unwrap_err().message(), "no exit");
    let exit = Some(Ok(ExitResult { code: Some(0), signal: None }));
    assert_eq!(read_cancel(b"{}", false, exit, worse()).unwrap_err().message(), "no outcome");
    let fact = Some(Err("no fact".to_owned()));
    let named = b"{\"session\":{\"capabilities\":[\"finite-output-v1\"]}}";
    assert_eq!(read_bounded_cancel(named, fact).unwrap_err().message(), "no fact");
}

#[test]
fn bounded_cancellations_keep_their_facts() {
    let named = b"{\"session\":{\"capabilities\":[\"finite-output-v1\"]}}";
    let failed = b"{\"error\":\"late\",\"session\":{\"capabilities\":[\"finite-output-v1\"]}}";
    let mut fact = OutputFact::new(8);
    fact.leader_exit = Some(ExitResult { code: Some(5), signal: None });
    assert_eq!(read_bounded_cancel(named, Some(Ok(fact))).unwrap().unwrap().process_code(), 5);
    assert!(read_bounded_cancel(failed, Some(Ok(fact))).unwrap().is_none());
    assert!(matches!(read_bounded_cancel(named, None), Err(ControlError::Unbounded)));
    assert!(matches!(read_bounded_cancel(failed, None), Err(ControlError::Refused(_))));
    assert!(matches!(
        bounded_cancel_found(JsonAt::Invalid, true, Some(Ok(fact))),
        Err(ControlError::Invalid)
    ));
    assert!(matches!(
        bounded_cancel_found(JsonAt::Missing, false, Some(Ok(fact))),
        Err(ControlError::Unbounded)
    ));
}

#[test]
fn controls_choose_their_requests() {
    assert_eq!(cancel_control(false, false), Control::Cancel);
    assert_eq!(cancel_control(true, false), Control::CancelGroupPidfd);
    assert_eq!(cancel_control(true, true), Control::CancelOutput);
    assert!(matches!(control_request(Control::CancelOutput), BrokerRequest::CancelOutputV1));
    assert!(matches!(control_request(Control::Pid), BrokerRequest::Pid));
}

#[test]
fn json_replies_are_looked_up() {
    assert_eq!(error_of(JsonAt::Text("x".into())).unwrap().unwrap(), "x");
    assert!(error_of(JsonAt::Missing).unwrap().is_none());
    assert!(error_of(JsonAt::Invalid).is_none());
    assert_eq!(read_error(b"{\"error\":\"x\"}").unwrap().unwrap(), "x");
    assert!(read_error(b"{}").unwrap().is_none());
    assert!(read_error(b"{").is_none());
    assert!(capability_found(&[JsonAt::Null, JsonAt::Text("a".into())], "a"));
    assert!(!capability_found(&[], "a"));
}

#[test]
fn only_a_reply_with_an_error_is_one() {
    assert!(is_error_reply(&Some(ErrorResponse { error: Some("x".into()) })));
    assert!(!is_error_reply(&Some(ErrorResponse { error: None })));
    assert!(!is_error_reply(&None));
}

#[test]
fn framed_attachments_are_distinct_requests() {
    let attachment = AttachmentOpen {
        kind: AttachKind::Bounded,
        offsets: OutputOffsets { stdout: 0, stderr: 0 },
        stdin_start: 0,
        stdin_eof: None,
        force: true,
    };
    assert!(matches!(attach_request(attachment), BrokerRequest::AttachOutputV1 { force: true, .. }));
    let framed = AttachmentOpen { kind: AttachKind::Framed, ..attachment };
    assert!(matches!(attach_request(framed), BrokerRequest::AttachFramedV1 { .. }));
}

#[test]
fn only_an_absent_session_is_missing() {
    assert_eq!(reach_broker(true, true, true), ReachStep::Connected);
    assert_eq!(reach_broker(true, false, false), ReachStep::Poll);
    let silent = reach_broker(true, false, true);
    assert_eq!(silent, ReachStep::Unreachable);
    assert_eq!(silent.message(), "cannot connect to session broker");
    assert_eq!(silent.code(), None);
    let missing = reach_broker(false, false, false);
    assert_eq!(missing, ReachStep::Missing);
    assert_eq!(missing.message(), "session does not exist");
    assert_eq!(missing.code().unwrap(), "session_missing");
}
