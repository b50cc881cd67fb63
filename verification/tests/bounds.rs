use std::cell::Cell;
use std::rc::Rc;

use pipekeep::broker::bounds::ReadResult;
use pipekeep::broker::collect::{CollectStep, Collector};
use pipekeep::broker::{Broker, Stream};
use pipekeep::cancellation::Cancellation;
use pipekeep::group_pidfd::{GroupSignal, SIGKILL, SIGTERM};
use pipekeep::output::{
    Collection, CollectionCause, OutputFact, StopReason, StorageFault, TAIL_BYTES,
};
use pipekeep::protocol::ExitResult;

const MILLI: u128 = 1_000_000;

struct Kernel {
    exists: Cell<bool>,
    terms: Cell<u32>,
    kills: Cell<u32>,
}

struct Handle(Rc<Kernel>);

impl GroupSignal for Handle {
    fn signal(&self, sig: i32) -> Result<bool, String> {
        if sig == SIGTERM {
            self.0.terms.set(self.0.terms.get() + 1);
        }
        if sig == SIGKILL {
            self.0.kills.set(self.0.kills.get() + 1);
            self.0.exists.set(false);
        }
        Ok(self.0.exists.get())
    }
}

fn fixture(limit: u64, exists: bool, grace: u128, settlement: u128) -> (Broker<Handle>, Rc<Kernel>) {
    let kernel = Rc::new(Kernel {
        exists: Cell::new(exists),
        terms: Cell::new(0),
        kills: Cell::new(0),
    });
    let cancellation = Cancellation::verify_acquired(Ok(Handle(kernel.clone())));
    let mut broker = Broker::new(
        false,
        Some(cancellation),
        Some(OutputFact::new(limit)),
        grace,
        settlement,
    );
    broker.record_exit(Ok(ExitResult {
        code: Some(23),
        signal: None,
    }));
    (broker, kernel)
}

fn charge(broker: &mut Broker<Handle>, stream: Stream, count: usize) {
    assert!(broker.fact().unwrap().available() >= count as u64);
    assert_eq!(broker.reserve(0, stream, count), count);
}

/// Drives the operation until the group is found absent, and says when.
fn absent(broker: &mut Broker<Handle>, from: u128, first: bool) -> u128 {
    let mut now = from;
    let mut first = first;
    while !broker.fact().unwrap().original_group_absent {
        broker.hardened_step(now, first);
        first = false;
        now += 2 * MILLI;
        assert!(now < from + 1_000 * MILLI);
    }
    now
}

/// Reads both sources to their end as the collector asks for them.
fn collect(broker: &mut Broker<Handle>, now: u128, stdout: &[u8]) -> Option<CollectionCause> {
    let mut collector = Collector::new();
    let mut at = 0;
    loop {
        match broker.collect(&mut collector, now) {
            CollectStep::Done => return None,
            CollectStep::GaveUp(cause) => return Some(cause),
            CollectStep::Wait(wait) => {
                if wait.stdout {
                    let count = wait.read_size.min(stdout.len() - at);
                    at += count;
                    let result = if count == 0 {
                        ReadResult::Eof
                    } else {
                        ReadResult::Bytes(count)
                    };
                    let kept = broker.collect_read(&mut collector, now, Stream::Stdout, result, wait.tail);
                    assert_eq!(kept, 0);
                } else if wait.stderr {
                    broker.collect_read(&mut collector, now, Stream::Stderr, ReadResult::Eof, wait.tail);
                } else {
                    panic!("nothing to wait for");
                }
            }
        }
    }
}

#[test]
fn actual_partial_write_write_and_flush_positions_are_distinct() {
    let cases: Vec<(usize, Vec<usize>, bool, StorageFault)> = vec![
        (0, vec![0], true, StorageFault::Write),
        (3, vec![3, 0], true, StorageFault::PartialWrite),
        (8, vec![8], false, StorageFault::Flush),
    ];
    for (cap, counts, flushed, fault) in cases {
        let (mut broker, _) = fixture(8, false, 0, 100 * MILLI);
        assert!(broker.start_hardened(0));
        charge(&mut broker, Stream::Stdout, 8);
        let run = broker.write_prefix(0, Stream::Stdout, 8, 0, &counts, Some(flushed));
        assert_eq!(run.written, cap);
        assert!(run.returned);
        absent(&mut broker, 0, true);
        let p = broker.fact().unwrap();
        assert_eq!(p.stdout.retained, cap as u64);
        assert_eq!(p.stdout.reserved, 0);
        assert_eq!(p.stdout.storage_fault, Some(fault));
        assert_eq!(p.first_stop, Some(StopReason::StorageFault));
        assert_eq!(p.io_inflight, 0);
        assert!(!p.stdout.prefix_complete);
        assert!(broker.failure.is_none());
        broker.observed(0, Stream::Stderr, ReadResult::Failed, false);
        assert_eq!(
            broker.fact().unwrap().first_stop,
            Some(StopReason::StorageFault)
        );
    }
}

#[test]
fn two_uncancelled_blocking_writes_stay_charged_while_owner_kills() {
    let (mut broker, kernel) = fixture(8, true, 20 * MILLI, 100 * MILLI);
    for stream in [Stream::Stdout, Stream::Stderr] {
        charge(&mut broker, stream, 4);
        // A write call that does not return reports nothing yet.
        let run = broker.write_prefix(0, stream, 4, 0, &[], Some(true));
        assert!(!run.returned);
    }
    assert_eq!(broker.fact().unwrap().available(), 0);
    assert!(broker.start_hardened(0));
    broker.stop(0, StopReason::OutputLimit);
    let now = absent(&mut broker, 0, true);
    let p = broker.fact().unwrap();
    assert_eq!(
        (
            p.stdout.retained,
            p.stderr.retained,
            p.stdout.reserved,
            p.stderr.reserved
        ),
        (0, 0, 4, 4)
    );
    assert_eq!(p.io_inflight, 2);
    assert!(!p.sealed);
    assert_eq!(kernel.terms.get(), 1);
    assert_eq!(kernel.kills.get(), 1);
    assert!(!broker.start_hardened(now));
    for stream in [Stream::Stdout, Stream::Stderr] {
        let run = broker.write_prefix(now, stream, 4, 0, &[4], Some(true));
        assert_eq!(run.written, 4);
        assert!(run.returned && run.fault.is_none());
    }
    let p = broker.fact().unwrap();
    assert_eq!(
        (
            p.stdout.retained,
            p.stderr.retained,
            p.available(),
            p.io_inflight
        ),
        (4, 4, 0, 0)
    );
    assert!(p.sealed && p.original_group_absent);
}

#[test]
fn canceled_replay_future_cannot_cancel_blocking_io_or_release_lifetime_pin() {
    let (mut broker, _) = fixture(4, true, 10 * MILLI, 60 * MILLI);
    // The first reader leaves while its file is still being opened; a second
    // one finds the file taken.
    assert!(broker.replay_begin());
    assert!(!broker.replay_begin());
    assert_eq!(broker.fact().unwrap().io_inflight, 1);
    assert!(broker.start_hardened(0));
    broker.stop(0, StopReason::OutputLimit);
    let now = absent(&mut broker, 0, true);
    broker.close_collection(CollectionCause::StoragePending);
    let now = now + 100 * MILLI;
    broker.hardened_step(now, false);
    let (busy, eligible) = broker.hardened_lifetime_state();
    assert!(
        busy && eligible,
        "completed cancel cannot dispose unresolved I/O"
    );
    assert!(!broker.fact().unwrap().sealed);
    // The outstanding open returns, and finds less than was kept.
    broker.replay_finished(now, Stream::Stdout, Some(StorageFault::ReplayRead));
    let p = broker.fact().unwrap();
    assert_eq!(p.io_inflight, 0);
    assert_eq!(p.stdout.storage_fault, Some(StorageFault::ReplayRead));
    assert_eq!(p.first_stop, Some(StopReason::OutputLimit));
    assert!(p.original_group_absent && p.sealed);
    assert!(!broker.hardened_lifetime_state().0);
}

#[test]
fn real_replay_open_and_short_read_failures_latch_without_generic_failure() {
    for fault in [StorageFault::ReplayOpen, StorageFault::ReplayRead] {
        let (mut broker, _) = fixture(4, false, 0, 100 * MILLI);
        charge(&mut broker, Stream::Stdout, 4);
        broker.write_prefix(0, Stream::Stdout, 4, 0, &[4], Some(true));
        assert!(broker.start_hardened(0));
        assert!(broker.replay_begin());
        broker.replay_finished(0, Stream::Stdout, Some(fault));
        absent(&mut broker, 0, true);
        let p = broker.fact().unwrap();
        assert_eq!(p.stdout.storage_fault, Some(fault));
        assert_eq!(p.stdout.retained, 4); // recorded boundary never resets on failed replay
        assert_eq!(p.first_stop, Some(StopReason::StorageFault));
        assert_eq!(p.io_inflight, 0);
        assert!(broker.failure.is_none());
    }
}

#[test]
fn collector_read_fault_is_not_eof_and_group_fact_survives_deadline() {
    let (mut broker, _) = fixture(4, false, 0, 100 * MILLI);
    assert!(broker.start_hardened(0));
    broker.hardened_step(0, true);
    let mut collector = Collector::new();
    assert!(matches!(
        broker.collect(&mut collector, 0),
        CollectStep::Wait(_)
    ));
    broker.collect_read(&mut collector, 0, Stream::Stdout, ReadResult::Failed, false);
    loop {
        match broker.collect(&mut collector, 0) {
            CollectStep::Wait(wait) => {
                assert!(!wait.stdout && wait.stderr);
                broker.collect_read(&mut collector, 0, Stream::Stderr, ReadResult::Eof, wait.tail);
            }
            CollectStep::Done => break,
            CollectStep::GaveUp(_) => panic!("collection ended early"),
        }
    }
    absent(&mut broker, 0, false);
    broker.hardened_step(130 * MILLI, false);
    let p = broker.fact().unwrap();
    assert_eq!(p.first_stop, Some(StopReason::OutputReadFault));
    assert_eq!(
        p.stdout.collection,
        Collection::Unconfirmed(CollectionCause::OutputRead)
    );
    assert_eq!(p.stderr.collection, Collection::Eof);
    assert!(p.original_group_absent);
    assert_eq!(p.leader_exit.unwrap().code, Some(23));
    assert!(!broker.session.meta.stdout_closed);
    assert!(broker
        .cancellation
        .as_ref()
        .unwrap()
        .result
        .as_ref()
        .unwrap()
        .is_err());
}

#[test]
fn tail_at_exact_cap_is_unconfirmed_and_one_extra_byte_allows_eof() {
    for count in [TAIL_BYTES, TAIL_BYTES - 1] {
        let (mut broker, _) = fixture(0, false, 0, 1_000 * MILLI);
        assert!(broker.start_hardened(0));
        broker.hardened_step(0, true);
        broker.stop(0, StopReason::OutputLimit);
        let data = vec![b'x'; count as usize];
        collect(&mut broker, 0, &data);
        let p = broker.fact().unwrap();
        assert_eq!(p.tail_read, count);
        assert_eq!(
            p.stdout.collection,
            if count == TAIL_BYTES {
                Collection::Unconfirmed(CollectionCause::TailBytes)
            } else {
                Collection::Eof
            }
        );
        assert!(p.original_group_absent);
    }
}

#[test]
fn old_operation_deadline_caps_tail_and_preserves_absence() {
    let (mut broker, _) = fixture(0, false, 0, 120 * MILLI);
    assert!(broker.start_hardened(0));
    absent(&mut broker, 0, true);
    let original = broker.cancellation.as_ref().unwrap().finish_deadline();
    let now = 80 * MILLI;
    broker.stop(now, StopReason::OutputLimit);
    let mut collector = Collector::new();
    // The drain begins, but its own time would pass that of the operation.
    match broker.collect(&mut collector, now) {
        CollectStep::Wait(wait) => assert_eq!(wait.deadline, original),
        _ => panic!("expected the drain"),
    }
    broker.collect_read(&mut collector, now, Stream::Stderr, ReadResult::Eof, true);
    let now = 120 * MILLI;
    broker.hardened_step(now, false);
    match broker.collect(&mut collector, now) {
        CollectStep::GaveUp(cause) => assert_eq!(cause, CollectionCause::OperationDeadline),
        _ => panic!("expected the end of the operation"),
    }
    let p = broker.fact().unwrap();
    assert!(p.original_group_absent);
    assert_eq!(
        p.stdout.collection,
        Collection::Unconfirmed(CollectionCause::OperationDeadline)
    );
    assert_eq!(
        broker.cancellation.as_ref().unwrap().finish_deadline(),
        original
    );
}

#[test]
fn a_write_becomes_public_count_by_count() {
    let (mut broker, _) = fixture(8, false, 0, 100 * MILLI);
    charge(&mut broker, Stream::Stdout, 8);
    let run = broker.write_prefix(0, Stream::Stdout, 8, 0, &[5], None);
    assert_eq!((run.written, run.returned), (5, false));
    assert_eq!(broker.session.meta.stdout_end, 5);
    assert_eq!(broker.fact().unwrap().stdout.reserved, 3);
    let run = broker.write_prefix(0, Stream::Stdout, 8, 5, &[9], None);
    assert_eq!((run.written, run.returned), (8, false));
    assert_eq!(broker.fact().unwrap().io_inflight, 1);
    let run = broker.write_prefix(0, Stream::Stdout, 8, 8, &[], Some(true));
    assert!(run.returned && run.fault.is_none());
    let fact = broker.fact().unwrap();
    assert_eq!((fact.stdout.retained, fact.stdout.reserved, fact.io_inflight), (8, 0, 0));
    assert_eq!(fact.first_stop, None);
}

/// Reads both sources as the collector asks for them, each write returning at
/// once, until they end or the session stops. Says how many bytes were read.
fn gather(broker: &mut Broker<Handle>, mut stdout: usize, mut stderr: usize) -> usize {
    let mut collector = Collector::new();
    let mut read = 0;
    loop {
        let wait = match broker.collect(&mut collector, 0) {
            CollectStep::Wait(wait) => wait,
            _ => return read,
        };
        let (stream, left) = if wait.stdout {
            (Stream::Stdout, &mut stdout)
        } else if wait.stderr {
            (Stream::Stderr, &mut stderr)
        } else {
            return read;
        };
        let count = wait.read_size.min(*left).min(7);
        *left -= count;
        read += count;
        let result = if count == 0 {
            ReadResult::Eof
        } else {
            ReadResult::Bytes(count)
        };
        let kept = broker.collect_read(&mut collector, 0, stream, result, wait.tail);
        if kept > 0 {
            broker.write_prefix(0, stream, kept, 0, &[kept], Some(true));
            broker.collect_written(&mut collector, 0, stream, false);
        }
    }
}

#[test]
fn output_is_kept_up_to_the_limit_and_one_byte_more_is_read() {
    for (limit, stdout, stderr) in [(0, 0, 0), (20, 12, 8), (20, 20, 0), (64, 30, 9)] {
        let (mut broker, _) = fixture(limit, true, 100 * MILLI, 100 * MILLI);
        assert_eq!(gather(&mut broker, stdout, stderr), stdout + stderr);
        let fact = broker.fact().unwrap();
        assert_eq!(fact.first_stop, None);
        assert_eq!(fact.stdout.retained, stdout as u64);
        assert_eq!(fact.stderr.retained, stderr as u64);
        assert_eq!(fact.stdout.discarded + fact.stderr.discarded, 0);
    }
    for (limit, stdout, stderr) in [(0, 1, 0), (20, 12, 9), (20, 500, 500), (3, 0, 4)] {
        let (mut broker, _) = fixture(limit, true, 100 * MILLI, 100 * MILLI);
        assert_eq!(gather(&mut broker, stdout, stderr) as u64, limit + 1);
        let fact = broker.fact().unwrap();
        assert_eq!(fact.first_stop, Some(StopReason::OutputLimit));
        assert_eq!(fact.stdout.retained + fact.stderr.retained, limit);
        assert_eq!(fact.stdout.discarded + fact.stderr.discarded, 1);
    }
}
