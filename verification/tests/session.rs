use std::cell::Cell;
use std::rc::Rc;

use pipekeep::broker::bounds::ReadResult;
use pipekeep::broker::lifecycle::{
    group_exists, hardened_periods, seconds_setting, signal_answer, DrainStep, IdleClock,
    LegacyLifetime, NumberedAction, NumberedCancel, NumberedPhase, SignalAnswer, DAY_SECONDS,
    GRACE_PAUSE, SECOND, VANISH_PAUSE,
};
use pipekeep::broker::opening::{AttachKind, OpeningError, Route};
use pipekeep::broker::replay::{
    check_read, read_length, replay_fault_message, BoundedNext, BoundedSender,
};
use pipekeep::broker::sender::{BufferedSender, LiveSender, Receipts, SendNext};
use pipekeep::broker::{Broker, Stream, CHUNK_SIZE};
use pipekeep::cancellation::Cancellation;
use pipekeep::group_pidfd::GroupSignal;
use pipekeep::output::{OutputFact, StorageFault};
use pipekeep::protocol::{BrokerRequest, CancelOutcome, ExitResult, OutputOffsets};

struct Handle(Rc<Cell<bool>>);

impl GroupSignal for Handle {
    fn signal(&self, _signal: i32) -> Result<bool, String> {
        Ok(self.0.get())
    }
}

fn plain(nobuffer: bool) -> Broker<Handle> {
    Broker::new(nobuffer, None, None, 0, 0)
}

fn bounded(limit: u64) -> (Broker<Handle>, Rc<Cell<bool>>) {
    let present = Rc::new(Cell::new(true));
    let cancellation = Cancellation::verify_acquired(Ok(Handle(present.clone())));
    let broker = Broker::new(
        false,
        Some(cancellation),
        Some(OutputFact::new(limit)),
        SECOND,
        SECOND,
    );
    (broker, present)
}

fn start() -> OutputOffsets {
    OutputOffsets { stdout: 0, stderr: 0 }
}

fn exit(code: i32) -> ExitResult {
    ExitResult { code: Some(code), signal: None }
}

#[test]
fn a_fresh_attachment_learns_where_it_stands() {
    let mut broker = plain(false);
    let (lease, hello) = broker.attach(AttachKind::Raw, start(), 0, Some(4), false).unwrap();
    assert_eq!(lease.generation, 1);
    assert_eq!(hello.offsets.stdin, 0);
    assert_eq!(hello.stdin_eof_at, None);
    assert!(!hello.stdin_eof);
    assert!(hello.attachment.is_none() && hello.exit.is_none());
    let (_, hello) = broker.attach(AttachKind::Framed, start(), 0, None, true).unwrap();
    assert_eq!(hello.stdin_eof_at, Some(4));
}

#[test]
fn attachments_are_refused_without_harm() {
    let mut broker = plain(false);
    broker.attach(AttachKind::Raw, start(), 0, None, false).unwrap();
    let refused = broker.attach(AttachKind::Raw, start(), 0, None, false).unwrap_err();
    assert_eq!(refused, OpeningError::Attached);
    assert_eq!(refused.message(), "session already has an attached client");
    assert_eq!(refused.code().unwrap(), "session_attached");
    assert!(broker.session.is_current_attachment(1));

    // A forced opening that asks for too much divests and restores nobody.
    let ahead = OutputOffsets { stdout: 9, stderr: 0 };
    let refused = broker.attach(AttachKind::Raw, ahead, 0, None, true).unwrap_err();
    assert_eq!(refused.message(), "requested output offset is ahead of the stream");
    assert!(refused.code().is_none());
    assert_eq!(broker.session.attachment.current, None);
    assert!(broker.attach(AttachKind::Raw, start(), 0, None, false).is_ok());
}

#[test]
fn a_superseded_opening_is_told_so() {
    let mut broker = plain(false);
    let lease = broker.begin_attach(AttachKind::Framed, start(), false).unwrap();
    broker.begin_attach(AttachKind::Framed, start(), true).unwrap();
    let refused = broker
        .complete_attach(AttachKind::Framed, lease.generation, start(), 0, None)
        .unwrap_err();
    assert_eq!(refused.message(), "attachment superseded");
    let hello = broker.complete_attach(AttachKind::Framed, 2, start(), 0, None).unwrap();
    assert_eq!(hello.attachment.unwrap(), "framed-v1");
}

#[test]
fn bounded_sessions_want_aware_requests() {
    let (broker, _) = bounded(16);
    for request in [BrokerRequest::Cancel, BrokerRequest::CancelGroupPidfd, BrokerRequest::StdinEof { offset: 1 }] {
        assert_eq!(broker.route(request), Route::Refuse(OpeningError::BoundedOnly));
    }
    assert_eq!(broker.route(BrokerRequest::CancelOutputV1), Route::CancelHardened);
    assert_eq!(broker.route(BrokerRequest::Session), Route::Observe);
    let ordinary = plain(false);
    assert_eq!(
        ordinary.route(BrokerRequest::CancelOutputV1),
        Route::Refuse(OpeningError::NotBounded)
    );
    assert_eq!(
        ordinary.route(BrokerRequest::CancelGroupPidfd),
        Route::Refuse(OpeningError::NotHardened)
    );
    assert_eq!(ordinary.route(BrokerRequest::Cancel), Route::CancelByNumber);
    assert_eq!(ordinary.route(BrokerRequest::Pid), Route::Pid);
    assert_eq!(ordinary.route(BrokerRequest::StdinEof { offset: 1 }), Route::DeclareEof { offset: 1 });
    let live = plain(true);
    let framed = BrokerRequest::AttachFramedV1 { offsets: start(), stdin_start: 0, stdin_eof: None, force: false };
    assert_eq!(live.route(framed), Route::Refuse(OpeningError::FramedNeedsBuffer));
    assert_eq!(OpeningError::NotBounded.message(), "session output is not bounded");
    assert_eq!(
        OpeningError::NotHardened.message(),
        "session did not opt in to group pidfd cancellation"
    );
}

#[test]
fn unverified_control_refuses_a_bounded_attachment() {
    let cancellation: Cancellation<Handle> = Cancellation::verify_acquired(Err("no".into()));
    let mut broker =
        Broker::new(false, Some(cancellation), Some(OutputFact::new(4)), SECOND, SECOND);
    let refused = broker.attach(AttachKind::Bounded, start(), 0, None, false).unwrap_err();
    assert_eq!(refused, OpeningError::ControlUnavailable);
    let fact = broker.session_fact().unwrap();
    assert!(fact.capabilities.is_empty());
}

#[test]
fn buffered_output_alternates_and_the_exit_comes_last() {
    let mut broker = plain(false);
    broker.attach(AttachKind::Framed, start(), 0, None, false).unwrap();
    assert_eq!(
        broker.drain(Stream::Stdout, ReadResult::Bytes(3), ""),
        DrainStep::Placed { offset: 0, live: false }
    );
    broker.drain(Stream::Stderr, ReadResult::Bytes(2), "");
    broker.drain(Stream::Stdout, ReadResult::Eof, "");
    broker.drain(Stream::Stderr, ReadResult::Eof, "");
    broker.record_exit(Ok(exit(3)));
    let mut receipts = Receipts::new();
    receipts.publish(5);
    receipts.publish(6);
    let mut sender = BufferedSender::new(1, 0, 0);
    let turn = sender.turn(&broker.session, &mut receipts).unwrap();
    assert_eq!(turn.receipt, Some(6));
    assert_eq!(turn.next, SendNext::Read { stream: Stream::Stdout, offset: 0, end: 3 });
    assert!(sender.sent(&broker.session, Stream::Stdout, 1));
    let turn = sender.turn(&broker.session, &mut receipts).unwrap();
    assert_eq!(turn.receipt, None);
    assert_eq!(turn.next, SendNext::Read { stream: Stream::Stderr, offset: 0, end: 2 });
    assert!(sender.sent(&broker.session, Stream::Stderr, 2));
    let turn = sender.turn(&broker.session, &mut receipts).unwrap();
    assert_eq!(turn.next, SendNext::Read { stream: Stream::Stdout, offset: 1, end: 3 });
    assert!(sender.sent(&broker.session, Stream::Stdout, 2));
    let turn = sender.turn(&broker.session, &mut receipts).unwrap();
    assert_eq!(turn.next, SendNext::Exit(exit(3)));
    assert!(sender.may_end(&broker.session));
    broker.session.compare_clear_attachment(1);
    assert!(!sender.may_end(&broker.session));
    assert!(sender.turn(&broker.session, &mut receipts).is_none());
}

#[test]
fn live_output_is_not_repeated() {
    let mut broker = plain(true);
    broker.attach(AttachKind::Raw, start(), 0, None, false).unwrap();
    let mut sender = LiveSender::new(1, 2, 0);
    let mut receipts = Receipts::new();
    assert_eq!(sender.begin_turn(&broker.session, &mut receipts), Some(None));
    assert_eq!(sender.next_queue(0), Some(Stream::Stdout));
    assert_eq!(sender.next_queue(3), None);
    let (offset, data) = sender.chunk(&broker.session, Stream::Stdout, 0, b"abcd", true).unwrap();
    assert_eq!((offset, data), (2, b"cd".to_vec()));
    assert!(sender.chunk(&broker.session, Stream::Stdout, 0, b"abcd", true).is_none());
    assert_eq!(sender.stdout_position, 4);
    assert_eq!(sender.settle(&broker.session), Some(SendNext::Wait));
    broker.drain(Stream::Stdout, ReadResult::Bytes(9), "");
    broker.drain(Stream::Stdout, ReadResult::Eof, "");
    broker.drain(Stream::Stderr, ReadResult::Eof, "");
    broker.record_exit(Ok(exit(0)));
    let mut lost = LiveSender::new(2, 2, 0);
    assert_eq!(lost.settle(&broker.session), None);
    assert_eq!(lost.stdout_position, 2);
    assert_eq!(sender.settle(&broker.session), Some(SendNext::Exit(exit(0))));
    assert_eq!(sender.stdout_position, 9);
}

#[test]
fn bounded_replays_end_after_everything() {
    let (mut broker, present) = bounded(16);
    let (_, hello) = broker.attach(AttachKind::Bounded, start(), 0, None, false).unwrap();
    assert_eq!(hello.attachment.unwrap(), "framed-output-v1");
    assert_eq!(hello.output.unwrap().limit, 16);
    assert_eq!(broker.reserve(0, Stream::Stdout, 4), 4);
    broker.write_prefix(0, Stream::Stdout, 4, 0, &[4], Some(true));
    let mut receipts = Receipts::new();
    let mut sender = BoundedSender::new(1, 0, 0);
    let turn = sender.turn(&broker, &mut receipts).unwrap();
    assert!(turn.state.is_some());
    assert_eq!(
        turn.next,
        BoundedNext::Replay { stream: Stream::Stdout, offset: 0, end: 4 }
    );
    assert!(sender.replayed(&broker, Stream::Stdout, 4));
    let turn = sender.turn(&broker, &mut receipts).unwrap();
    assert!(turn.state.is_none());
    assert_eq!(turn.next, BoundedNext::Wait);
    broker.observed(0, Stream::Stdout, ReadResult::Eof, false);
    broker.observed(0, Stream::Stderr, ReadResult::Eof, false);
    present.set(false);
    broker.record_exit(Ok(exit(0)));
    let turn = sender.turn(&broker, &mut receipts).unwrap();
    match turn.next {
        BoundedNext::End(fact) => {
            assert!(fact.complete());
            assert_eq!(fact.process_code(), 0);
        }
        _ => panic!("expected the end"),
    }
}

#[test]
fn replay_reads_are_bounded_and_never_empty() {
    assert_eq!(read_length(0, 10), 10);
    assert_eq!(read_length(5, 5), 0);
    assert_eq!(read_length(0, u64::MAX), CHUNK_SIZE);
    assert_eq!(check_read(b"x".to_vec()).unwrap(), b"x");
    assert!(check_read(Vec::new()).is_err());
    assert!(!replay_fault_message(StorageFault::ReplayOpen).is_empty());
}

#[test]
fn output_failures_close_a_stream_only_in_ordinary_sessions() {
    let mut broker = plain(false);
    assert_eq!(broker.drain(Stream::Stdout, ReadResult::Failed, "bad"), DrainStep::Closed);
    assert!(broker.session.meta.stdout_closed);
    let cancellation = Cancellation::verify_acquired(Ok(Handle(Rc::new(Cell::new(true)))));
    let mut hardened = Broker::new(false, Some(cancellation), None, SECOND, SECOND);
    assert_eq!(hardened.drain(Stream::Stdout, ReadResult::Failed, "bad"), DrainStep::Failed);
    assert!(!hardened.session.meta.stdout_closed);
    assert!(hardened.failure.as_ref().unwrap().contains("bad"));
    hardened.record_exit(Err("gone".into()));
    assert!(hardened.session.meta.status.is_none());
    let mut ordinary = plain(false);
    ordinary.record_exit(Err("gone".into()));
    assert_eq!(ordinary.session.meta.status, Some(exit(1)));
}

#[test]
fn settings_are_plain_seconds_with_caps() {
    assert_eq!(seconds_setting(Some("5"), 30), 5);
    assert_eq!(seconds_setting(Some("x"), 30), 30);
    assert_eq!(seconds_setting(None, 30), 30);
    let periods = hardened_periods(0, 0, u64::MAX);
    assert_eq!(periods.grace, 0);
    assert_eq!(periods.settlement, SECOND);
    assert_eq!(periods.ttl, DAY_SECONDS as u128 * SECOND);
}

#[test]
fn pinned_sessions_do_not_expire() {
    let mut clock = IdleClock::new();
    assert!(!clock.tick(0, true, true, 1, SECOND));
    assert!(!clock.tick(SECOND, false, true, 1, SECOND));
    assert!(!clock.tick(2 * SECOND - 1, false, true, 1, SECOND));
    // A connection that came and went starts the time anew.
    assert!(!clock.tick(2 * SECOND, false, true, 2, SECOND));
    assert!(clock.tick(3 * SECOND, false, true, 2, SECOND));
    let mut broker = plain(false);
    assert_eq!(broker.hardened_lifetime_state(), (false, false));
    broker.connected();
    assert_eq!(broker.hardened_lifetime_state(), (true, false));
    broker.disconnected();
    assert_eq!(broker.hardened_lifetime_state(), (false, false));
}

#[test]
fn ordinary_sessions_expire_after_their_result_was_kept() {
    let mut life = LegacyLifetime::Running;
    life.tick(0, false, 1, SECOND);
    assert_eq!(life, LegacyLifetime::Running);
    life.tick(1, true, 1, SECOND);
    life.tick(2, true, 0, SECOND);
    life.tick(3, true, 0, SECOND);
    for now in [SECOND, 2 * SECOND, 3 * SECOND] {
        life.tick(now, true, 0, SECOND);
    }
    assert_eq!(life, LegacyLifetime::Expired);
}

#[test]
fn a_numbered_cancellation_probes_before_it_kills() {
    assert_eq!(signal_answer(None), SignalAnswer::Reached);
    assert_eq!(signal_answer(Some(3)), SignalAnswer::NoGroup);
    assert_eq!(signal_answer(Some(1)), SignalAnswer::Failed);
    assert!(group_exists(Some(1)) && group_exists(None) && !group_exists(Some(3)));
    assert!(NumberedCancel::begin(SignalAnswer::Failed, 0, 1).is_none());
    let mut cancel = NumberedCancel::begin(SignalAnswer::Reached, 0, 1).unwrap();
    assert_eq!(cancel.probed(true, 0), NumberedAction::Pause(GRACE_PAUSE));
    let mut action = cancel.probed(true, SECOND);
    if action == NumberedAction::Probe {
        action = cancel.probed(true, SECOND);
    }
    assert_eq!(action, NumberedAction::Kill);
    assert_eq!(cancel.phase, NumberedPhase::Killing);
    assert!(cancel.killed(SignalAnswer::Reached));
    assert_eq!(cancel.probed(true, SECOND), NumberedAction::Pause(VANISH_PAUSE));
    assert_eq!(cancel.probed(false, SECOND), NumberedAction::AwaitTerminal);
    let (outcome, told) = cancel.outcome(Some(exit(0))).unwrap();
    assert_eq!(outcome, CancelOutcome::CancelWon);
    assert_eq!(told, exit(0));
    assert_eq!(cancel.outcome(None).unwrap_err(), "command has no terminal result");
    let mut gone = NumberedCancel::begin(SignalAnswer::NoGroup, 0, 1).unwrap();
    assert_eq!(gone.probed(false, 0), NumberedAction::Probe);
    assert_eq!(gone.probed(false, 0), NumberedAction::Probe);
    assert_eq!(gone.probed(false, 0), NumberedAction::AwaitTerminal);
    assert_eq!(gone.outcome(Some(exit(0))).unwrap().0, CancelOutcome::AlreadyExited);
}

#[test]
fn buffered_frames_carry_every_byte_once_and_the_exit_last() {
    let stdout: Vec<u8> = (0..40).collect();
    let stderr: Vec<u8> = (100..125).collect();
    let mut broker = plain(false);
    broker.attach(AttachKind::Framed, start(), 0, None, false).unwrap();
    let mut receipts = Receipts::new();
    let mut sender = BufferedSender::new(1, 3, 1);
    let mut carried = (Vec::new(), Vec::new());
    broker.drain(Stream::Stdout, ReadResult::Bytes(30), "");
    broker.drain(Stream::Stderr, ReadResult::Bytes(25), "");
    let mut count = 1;
    loop {
        match sender.turn(&broker.session, &mut receipts).unwrap().next {
            SendNext::Read { stream, offset, end } => {
                let read = count.min((end - offset) as usize);
                count += 2;
                let from = offset as usize;
                match stream {
                    Stream::Stdout => carried.0.extend_from_slice(&stdout[from..from + read]),
                    Stream::Stderr => carried.1.extend_from_slice(&stderr[from..from + read]),
                }
                assert!(sender.sent(&broker.session, stream, read));
            }
            SendNext::Wait => {
                broker.drain(Stream::Stdout, ReadResult::Bytes(10), "");
                broker.drain(Stream::Stdout, ReadResult::Eof, "");
                broker.drain(Stream::Stderr, ReadResult::Eof, "");
                broker.record_exit(Ok(exit(4)));
            }
            SendNext::Exit(status) => {
                assert_eq!(status, exit(4));
                break;
            }
        }
    }
    assert_eq!(carried.0, stdout[3..]);
    assert_eq!(carried.1, stderr[1..]);
}

#[test]
fn replayed_frames_carry_every_retained_byte_once_and_the_end_last() {
    let stdout: Vec<u8> = (0..9).collect();
    let (mut broker, present) = bounded(16);
    broker.attach(AttachKind::Bounded, start(), 0, None, false).unwrap();
    assert_eq!(broker.reserve(0, Stream::Stdout, 9), 9);
    broker.write_prefix(0, Stream::Stdout, 9, 0, &[4, 5], Some(true));
    broker.observed(0, Stream::Stdout, ReadResult::Eof, false);
    broker.observed(0, Stream::Stderr, ReadResult::Eof, false);
    present.set(false);
    broker.record_exit(Ok(exit(0)));
    let mut receipts = Receipts::new();
    let mut sender = BoundedSender::new(1, 2, 0);
    let mut carried = Vec::new();
    let mut states = 0;
    loop {
        let turn = sender.turn(&broker, &mut receipts).unwrap();
        if turn.state.is_some() {
            states += 1;
        }
        match turn.next {
            BoundedNext::Replay { stream, offset, end } => {
                assert_eq!(stream, Stream::Stdout);
                let read = 3.min((end - offset) as usize);
                let from = offset as usize;
                carried.extend_from_slice(&stdout[from..from + read]);
                assert!(sender.replayed(&broker, stream, read));
            }
            BoundedNext::End(fact) => {
                assert_eq!(fact.stdout.retained, 9);
                break;
            }
            BoundedNext::Wait => panic!("nothing to wait for"),
        }
    }
    assert_eq!(carried, stdout[2..]);
    assert_eq!(states, 1);
}
