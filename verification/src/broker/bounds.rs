//! Finite output: one collector coordinator, two charged writes, one replay
//! read. Bytes are reserved before they are written, only written bytes become
//! public, and the first excess byte stops admission and starts cancellation.
use vstd::prelude::*;

use crate::broker::{Broker, IoPins, Meta, Stream, MAX_CLOCK};
use crate::cancellation::CancellationView;
use crate::group_pidfd::GroupSignal;
use crate::output::{
    Collection, CollectionCause, OutputFact, StopReason, StorageFault, StreamFact, MAX_LIMIT,
    TAIL_BYTES,
};
use crate::protocol::ExitResult;

verus! {

/// Longest time given to the tail drain, in nanoseconds.
pub const TAIL_NANOS: u128 = 200_000_000;

/// What a read from an output pipe gave.
#[derive(Clone, Copy, Debug, PartialEq, Eq, Structural)]
pub enum ReadResult {
    Eof,
    Bytes(usize),
    Failed,
}

impl StreamFact {
    /// A stream that claims no loss has lost nothing and met no fault.
    pub open spec fn claims_truly(self) -> bool {
        self.prefix_complete ==> self.discarded == 0 && self.storage_fault is None
    }
}

impl OutputFact {
    pub open spec fn of(self, stream: Stream) -> StreamFact {
        match stream {
            Stream::Stdout => self.stdout,
            Stream::Stderr => self.stderr,
        }
    }

    pub open spec fn with(self, stream: Stream, fact: StreamFact) -> OutputFact {
        match stream {
            Stream::Stdout => OutputFact { stdout: fact, ..self },
            Stream::Stderr => OutputFact { stderr: fact, ..self },
        }
    }

    /// What the retained facts keep to at all times, beside the pins.
    pub open spec fn keeps_books(self, pins: IoPins) -> bool {
        &&& self.limit <= MAX_LIMIT
        &&& self.within_limit()
        &&& self.tail_read <= TAIL_BYTES
        &&& self.io_inflight == pins.count()
        &&& !pins.stdout ==> self.stdout.reserved == 0
        &&& !pins.stderr ==> self.stderr.reserved == 0
        &&& self.stdout.claims_truly()
        &&& self.stderr.claims_truly()
    }

    /// The facts after a reason to stop; only the first one counts.
    pub open spec fn stopped_for(self, reason: StopReason) -> OutputFact {
        OutputFact {
            first_stop: if self.first_stop is Some {
                self.first_stop
            } else {
                Some(reason)
            },
            ..self
        }
    }

    /// The facts after a storage fault; only a stream's first one counts.
    pub open spec fn faulted(self, stream: Stream, fault: StorageFault) -> OutputFact {
        let fact = self.of(stream);
        self.with(
            stream,
            StreamFact {
                storage_fault: if fact.storage_fault is Some {
                    fact.storage_fault
                } else {
                    Some(fault)
                },
                prefix_complete: false,
                ..fact
            },
        ).stopped_for(StopReason::StorageFault)
    }

    /// The facts after `count` reserved bytes were written.
    pub open spec fn written(self, stream: Stream, count: int) -> OutputFact {
        let fact = self.of(stream);
        self.with(
            stream,
            StreamFact {
                reserved: (fact.reserved - count) as u64,
                retained: (fact.retained + count) as u64,
                ..fact
            },
        )
    }

    /// The facts after a write ended with `unused` reserved bytes unwritten.
    pub open spec fn released(self, stream: Stream, unused: int) -> OutputFact {
        let fact = self.of(stream);
        self.with(
            stream,
            StreamFact {
                reserved: (fact.reserved - unused) as u64,
                discarded: (fact.discarded + unused) as u64,
                prefix_complete: fact.prefix_complete && unused == 0,
                ..fact
            },
        )
    }

    /// The facts after a write ended, with its fault if it had one.
    pub open spec fn write_ended(
        self,
        stream: Stream,
        unused: int,
        fault: Option<StorageFault>,
    ) -> OutputFact {
        let released = self.released(stream, unused);
        let noted = match fault {
            Some(fault) => released.faulted(stream, fault),
            None => released,
        };
        OutputFact { io_inflight: (noted.io_inflight - 1) as u32, ..noted }
    }

    /// How many of `count` bytes just read are admitted.
    pub open spec fn admissible(self, count: int) -> int {
        let room = self.limit - self.charged();
        if self.first_stop is Some {
            0
        } else if count <= room {
            count
        } else {
            room
        }
    }

    /// The facts after `count` bytes were read and admitted as far as possible.
    pub open spec fn admitted(self, stream: Stream, count: int) -> OutputFact {
        let kept = self.admissible(count);
        let fact = self.of(stream);
        let charged = self.with(
            stream,
            StreamFact {
                reserved: (fact.reserved + kept) as u64,
                discarded: (fact.discarded + (count - kept)) as u64,
                prefix_complete: fact.prefix_complete && kept == count,
                ..fact
            },
        );
        let counted = OutputFact {
            io_inflight: if kept > 0 {
                (self.io_inflight + 1) as u32
            } else {
                self.io_inflight
            },
            ..charged
        };
        if kept == count {
            counted
        } else {
            counted.stopped_for(StopReason::OutputLimit)
        }
    }

    /// The facts after one stream's collection came to an end.
    pub open spec fn ended(self, stream: Stream, collection: Collection) -> OutputFact {
        self.with(stream, StreamFact { collection, ..self.of(stream) })
    }

    /// The facts after a read failed.
    pub open spec fn read_failed(self, stream: Stream) -> OutputFact {
        self.with(
            stream,
            StreamFact {
                collection: Collection::Unconfirmed(CollectionCause::OutputRead),
                prefix_complete: false,
                ..self.of(stream)
            },
        ).stopped_for(StopReason::OutputReadFault)
    }

    /// The facts after the tail drain discarded `count` bytes.
    pub open spec fn drained(self, stream: Stream, count: int) -> OutputFact {
        let fact = self.of(stream);
        OutputFact { tail_read: (self.tail_read + count) as u64, ..self }.with(
            stream,
            StreamFact {
                discarded: (fact.discarded + count) as u64,
                prefix_complete: false,
                ..fact
            },
        )
    }

    /// The facts after collection was given up for `cause` wherever it still
    /// went on.
    pub open spec fn given_up(self, cause: CollectionCause) -> OutputFact {
        OutputFact {
            stdout: self.stdout.given_up(cause),
            stderr: self.stderr.given_up(cause),
            ..self
        }
    }

    /// The facts as they are told: with the command's exit and the state of
    /// group control, and with completeness claimed only where nothing is open.
    pub open spec fn told(self, exit: Option<ExitResult>, control: CancellationView) -> OutputFact {
        OutputFact {
            leader_exit: exit,
            original_group_absent: control.group_absent,
            group_control: control.control(),
            stdout: self.stdout.told(self.io_inflight),
            stderr: self.stderr.told(self.io_inflight),
            sealed: self.io_inflight == 0 && (self.first_stop is Some || self.is_collected()),
            ..self
        }
    }
}

impl StreamFact {
    pub open spec fn given_up(self, cause: CollectionCause) -> StreamFact {
        if self.collection == Collection::Reading {
            StreamFact { collection: Collection::Unconfirmed(cause), ..self }
        } else {
            self
        }
    }

    pub open spec fn told(self, io: u32) -> StreamFact {
        StreamFact {
            prefix_complete: self.prefix_complete && self.collection == Collection::Eof
                && self.reserved == 0 && io == 0,
            ..self
        }
    }
}

/// The facts that a session tells always pass the check that their reader
/// makes, and once collection and storage are settled they can end a replay.
pub proof fn told_facts_are_valid(
    policy: OutputFact,
    pins: IoPins,
    exit: Option<ExitResult>,
    control: CancellationView,
)
    requires
        policy.keeps_books(pins),
        exit is Some ==> exit->0.is_actual(),
    ensures
        policy.told(exit, control).verdict(false) is Ok,
        policy.is_collected() && policy.io_inflight == 0 ==> policy.told(exit, control).verdict(
            true,
        ) is Ok,
{
}

/// Every operation on the retained facts keeps the books.
pub proof fn books_are_kept(
    policy: OutputFact,
    pins: IoPins,
    stream: Stream,
    count: int,
    fault: StorageFault,
    reason: StopReason,
    cause: CollectionCause,
)
    requires
        policy.keeps_books(pins),
        count >= 0,
        policy.of(stream).discarded + count <= u64::MAX,
    ensures
        policy.stopped_for(reason).keeps_books(pins),
        policy.faulted(stream, fault).keeps_books(pins),
        count <= policy.of(stream).reserved ==> policy.written(stream, count).keeps_books(pins),
        pins.of(stream) && count == policy.of(stream).reserved ==> policy.write_ended(
            stream,
            count,
            None,
        ).keeps_books(pins.with(stream, false)) && policy.write_ended(
            stream,
            count,
            Some(fault),
        ).keeps_books(pins.with(stream, false)),
        !pins.of(stream) || policy.admissible(count) == 0 ==> policy.admitted(
            stream,
            count,
        ).keeps_books(
            if policy.admissible(count) > 0 {
                pins.with(stream, true)
            } else {
                pins
            },
        ),
        policy.read_failed(stream).keeps_books(pins),
        policy.tail_read + count <= TAIL_BYTES ==> policy.drained(stream, count).keeps_books(pins),
        policy.given_up(cause).keeps_books(pins),
{
}

/// Only a read that gives the end of the file confirms that a stream has ended:
/// nothing else that can happen to the facts does, and nothing takes it back but
/// a read that fails.
pub proof fn only_an_end_of_file_confirms(
    policy: OutputFact,
    stream: Stream,
    other: Stream,
    count: int,
    fault: Option<StorageFault>,
    reason: StopReason,
    cause: CollectionCause,
)
    ensures
        ({
            let eof = policy.of(stream).collection == Collection::Eof;
            &&& policy.ended(stream, Collection::Eof).of(stream).collection == Collection::Eof
            &&& policy.stopped_for(reason).of(stream).collection == policy.of(stream).collection
            &&& policy.written(other, count).of(stream).collection == policy.of(stream).collection
            &&& policy.write_ended(other, count, fault).of(stream).collection == policy.of(
                stream,
            ).collection
            &&& policy.admitted(other, count).of(stream).collection == policy.of(stream).collection
            &&& policy.drained(other, count).of(stream).collection == policy.of(stream).collection
            &&& policy.given_up(cause).of(stream).collection == Collection::Eof <==> eof
            &&& policy.read_failed(other).of(stream).collection == Collection::Eof ==> eof
        }),
{
}

/// The account of one stream.
pub fn stream_fact(policy: &mut OutputFact, stream: Stream) -> (r: &mut StreamFact)
    ensures
        *r == old(policy).of(stream),
        *final(policy) == old(policy).with(stream, *final(r)),
{
    match stream {
        Stream::Stdout => &mut policy.stdout,
        Stream::Stderr => &mut policy.stderr,
    }
}

fn note_stop(policy: &mut OutputFact, reason: StopReason)
    ensures
        *final(policy) == old(policy).stopped_for(reason),
{
    if policy.first_stop.is_none() {
        policy.first_stop = Some(reason);
    }
}

fn note_fault(policy: &mut OutputFact, stream: Stream, fault: StorageFault)
    ensures
        *final(policy) == old(policy).faulted(stream, fault),
{
    {
        let fact = stream_fact(policy, stream);
        if fact.storage_fault.is_none() {
            fact.storage_fault = Some(fault);
        }
        fact.prefix_complete = false;
    }
    note_stop(policy, StopReason::StorageFault);
}

fn note_given_up(fact: &mut StreamFact, cause: CollectionCause)
    ensures
        *final(fact) == old(fact).given_up(cause),
{
    if fact.collection == Collection::Reading {
        fact.collection = Collection::Unconfirmed(cause);
    }
}

fn pins_with(pins: IoPins, stream: Stream, held: bool) -> (r: IoPins)
    ensures
        r == pins.with(stream, held),
{
    match stream {
        Stream::Stdout => IoPins { stdout: held, ..pins },
        Stream::Stderr => IoPins { stderr: held, ..pins },
    }
}

fn charge(policy: &mut OutputFact, stream: Stream, count: usize) -> (r: usize)
    requires
        old(policy).within_limit(),
        old(policy).io_inflight < u32::MAX,
        old(policy).of(stream).discarded + count <= u64::MAX,
    ensures
        r == old(policy).admissible(count as int),
        *final(policy) == old(policy).admitted(stream, count as int),
{
    let room: u64 = policy.available();
    let retained: usize = if policy.first_stop.is_some() {
        0
    } else if count as u64 <= room {
        count
    } else {
        room as usize
    };
    {
        let fact = stream_fact(policy, stream);
        fact.reserved = fact.reserved + retained as u64;
        fact.discarded = fact.discarded + (count - retained) as u64;
        if retained != count {
            fact.prefix_complete = false;
        }
    }
    if retained != 0 {
        policy.io_inflight = policy.io_inflight + 1;
    }
    if retained != count {
        note_stop(policy, StopReason::OutputLimit);
    }
    retained
}

fn release(policy: &mut OutputFact, stream: Stream, unused: usize, fault: Option<StorageFault>)
    requires
        unused <= old(policy).of(stream).reserved,
        old(policy).of(stream).discarded + unused <= u64::MAX,
        old(policy).io_inflight > 0,
    ensures
        *final(policy) == old(policy).write_ended(stream, unused as int, fault),
{
    {
        let fact = stream_fact(policy, stream);
        fact.reserved = fact.reserved - unused as u64;
        fact.discarded = fact.discarded + unused as u64;
        if unused != 0 {
            fact.prefix_complete = false;
        }
    }
    if let Some(fault) = fault {
        note_fault(policy, stream, fault);
    }
    policy.io_inflight = policy.io_inflight - 1;
}

impl Meta {
    /// The retained state with other finite output facts.
    pub open spec fn with_output(self, policy: OutputFact) -> Meta {
        Meta { output: Some(policy), ..self }
    }

    /// The retained state with the public ends that the facts give.
    pub open spec fn with_ends(self, policy: OutputFact) -> Meta {
        Meta {
            output: Some(policy),
            stdout_end: policy.stdout.retained,
            stderr_end: policy.stderr.retained,
            ..self
        }
    }

    /// The retained state after a stream was closed.
    pub open spec fn with_closed(self, stream: Stream) -> Meta {
        match stream {
            Stream::Stdout => Meta { stdout_closed: true, ..self },
            Stream::Stderr => Meta { stderr_closed: true, ..self },
        }
    }
}

impl<H: GroupSignal> Broker<H> {
    fn books(&self) -> (r: OutputFact)
        requires
            self.is_bounded(),
        ensures
            r == self.policy(),
    {
        match self.session.meta.output {
            Some(policy) => policy,
            None => OutputFact::new(0),
        }
    }

    fn enter_books(&mut self, policy: OutputFact, pins: IoPins)
        requires
            old(self).valid(),
            old(self).is_bounded(),
            policy.keeps_books(pins),
            policy.stdout.retained == old(self).policy().stdout.retained,
            policy.stderr.retained == old(self).policy().stderr.retained,
        ensures
            final(self).became(
                *old(self),
                old(self).session.meta.with_output(policy),
                old(self).control(),
                pins,
            ),
            final(self).valid(),
    {
        self.session.meta.output = Some(policy);
        self.pins = pins;
    }

    /// The facts as they are told, of a bounded session.
    pub fn fact(&self) -> (r: Option<OutputFact>)
        requires
            self.valid(),
        ensures
            r == (if self.is_bounded() {
                Some(self.policy().told(self.session.meta.status, self.control()))
            } else {
                None
            }),
            r is Some ==> r->0.verdict(false) is Ok,
    {
        let mut p = match self.session.meta.output {
            Some(policy) => policy,
            None => {
                return None;
            },
        };
        p.leader_exit = self.session.meta.status;
        if let Some(cancellation) = &self.cancellation {
            p.original_group_absent = cancellation.group_absent();
            p.group_control = cancellation.output_control();
        }
        p.stdout.prefix_complete = p.stdout.prefix_complete && p.stdout.collection
            == Collection::Eof && p.stdout.reserved == 0 && p.io_inflight == 0;
        p.stderr.prefix_complete = p.stderr.prefix_complete && p.stderr.collection
            == Collection::Eof && p.stderr.reserved == 0 && p.io_inflight == 0;
        p.sealed = p.io_inflight == 0 && (p.first_stop.is_some() || p.collected());
        proof {
            assert(p == self.policy().told(self.session.meta.status, self.control()));
            told_facts_are_valid(
                self.policy(),
                self.pins,
                self.session.meta.status,
                self.control(),
            );
        }
        Some(p)
    }

    /// Makes sure that the session's cancellation has begun. `true` means that
    /// it begins with this call.
    pub fn start_hardened(&mut self, now: u128) -> (r: bool)
        requires
            old(self).valid(),
            old(self).cancellation is Some,
            now <= MAX_CLOCK,
        ensures
            r == (old(self).control().phase == crate::cancellation::Phase::Ready),
            final(self).became(
                *old(self),
                old(self).session.meta,
                old(self).control_started(now),
                old(self).pins,
            ),
            final(self).valid(),
    {
        let grace: u128 = self.grace;
        let settlement: u128 = self.settlement;
        match self.cancellation.as_mut() {
            Some(cancellation) => cancellation.start(now, grace, settlement),
            None => false,
        }
    }

    /// Stops admission for `reason` and makes sure that cancellation has begun,
    /// before anything else can happen.
    pub fn stop(&mut self, now: u128, reason: StopReason)
        requires
            old(self).valid(),
            old(self).is_bounded(),
            now <= MAX_CLOCK,
        ensures
            final(self).became(
                *old(self),
                old(self).session.meta.with_output(old(self).policy().stopped_for(reason)),
                old(self).control_started(now),
                old(self).pins,
            ),
            final(self).valid(),
    {
        let mut p = self.books();
        note_stop(&mut p, reason);
        self.session.meta.output = Some(p);
        let _ = self.start_hardened(now);
    }

    /// Notes a storage fault and makes sure that cancellation has begun.
    pub fn storage_fault(&mut self, now: u128, stream: Stream, fault: StorageFault)
        requires
            old(self).valid(),
            old(self).is_bounded(),
            now <= MAX_CLOCK,
        ensures
            final(self).became(
                *old(self),
                old(self).session.meta.with_output(old(self).policy().faulted(stream, fault)),
                old(self).control_started(now),
                old(self).pins,
            ),
            final(self).valid(),
    {
        let mut p = self.books();
        note_fault(&mut p, stream, fault);
        self.session.meta.output = Some(p);
        let _ = self.start_hardened(now);
    }

    /// Notes that `count` bytes of an outstanding write reached the file. Only
    /// now do they become public.
    pub fn write_progress(&mut self, stream: Stream, count: usize)
        requires
            old(self).valid(),
            old(self).is_bounded(),
            count <= old(self).policy().of(stream).reserved,
        ensures
            final(self).became(
                *old(self),
                old(self).session.meta.with_ends(old(self).policy().written(stream, count as int)),
                old(self).control(),
                old(self).pins,
            ),
            final(self).valid(),
    {
        let mut p = self.books();
        {
            let fact = stream_fact(&mut p, stream);
            fact.reserved = fact.reserved - count as u64;
            fact.retained = fact.retained + count as u64;
        }
        self.session.meta.output = Some(p);
        self.session.meta.stdout_end = p.stdout.retained;
        self.session.meta.stderr_end = p.stderr.retained;
    }

    /// Notes that an outstanding write returned. What it did not write is given
    /// back and counted as lost; its pin goes last.
    pub fn write_finished(
        &mut self,
        now: u128,
        stream: Stream,
        unused: usize,
        fault: Option<StorageFault>,
    )
        requires
            old(self).valid(),
            old(self).is_bounded(),
            now <= MAX_CLOCK,
            old(self).pins.of(stream),
            unused == old(self).policy().of(stream).reserved,
            old(self).policy().of(stream).discarded + unused <= u64::MAX,
        ensures
            final(self).became(
                *old(self),
                old(self).session.meta.with_output(
                    old(self).policy().write_ended(stream, unused as int, fault),
                ),
                if fault is Some {
                    old(self).control_started(now)
                } else {
                    old(self).control()
                },
                old(self).pins.with(stream, false),
            ),
            final(self).valid(),
    {
        proof {
            books_are_kept(
                self.policy(),
                self.pins,
                stream,
                unused as int,
                match fault {
                    Some(fault) => fault,
                    None => StorageFault::Write,
                },
                StopReason::StorageFault,
                CollectionCause::StoragePending,
            );
        }
        let mut p = self.books();
        release(&mut p, stream, unused, fault);
        let pins = pins_with(self.pins, stream, false);
        self.enter_books(p, pins);
        if fault.is_some() {
            let _ = self.start_hardened(now);
        }
    }

    /// Gives collection up for `cause` wherever it still goes on.
    pub fn close_collection(&mut self, cause: CollectionCause)
        requires
            old(self).valid(),
            old(self).is_bounded(),
        ensures
            final(self).became(
                *old(self),
                old(self).session.meta.with_output(old(self).policy().given_up(cause)),
                old(self).control(),
                old(self).pins,
            ),
            final(self).valid(),
    {
        let mut p = self.books();
        note_given_up(&mut p.stdout, cause);
        note_given_up(&mut p.stderr, cause);
        self.session.meta.output = Some(p);
    }

    /// What the facts become when a read gives `result`.
    pub open spec fn meta_observed(self, stream: Stream, result: ReadResult, tail: bool) -> Meta {
        let meta = self.session.meta;
        match result {
            ReadResult::Eof => meta.with_output(
                self.policy().ended(stream, Collection::Eof),
            ).with_closed(stream),
            ReadResult::Bytes(count) => if tail {
                meta.with_output(self.policy().drained(stream, count as int))
            } else {
                meta
            },
            ReadResult::Failed => meta.with_output(self.policy().read_failed(stream)),
        }
    }

    /// Notes what a read gave. In the tail its bytes are discarded here;
    /// otherwise their number is returned, for admission. Only an actual end of
    /// file closes the stream.
    pub fn observed(&mut self, now: u128, stream: Stream, result: ReadResult, tail: bool) -> (r:
        usize)
        requires
            old(self).valid(),
            old(self).is_bounded(),
            now <= MAX_CLOCK,
            result matches ReadResult::Bytes(count) ==> {
                &&& count > 0
                &&& tail ==> old(self).policy().tail_read + count <= TAIL_BYTES && old(
                    self,
                ).policy().of(stream).discarded + count <= u64::MAX
            },
        ensures
            r == (match result {
                ReadResult::Bytes(count) => count,
                _ => 0,
            }),
            final(self).became(
                *old(self),
                old(self).meta_observed(stream, result, tail),
                if result is Failed {
                    old(self).control_started(now)
                } else {
                    old(self).control()
                },
                old(self).pins,
            ),
            final(self).valid(),
    {
        let mut p = self.books();
        match result {
            ReadResult::Eof => {
                stream_fact(&mut p, stream).collection = Collection::Eof;
                self.session.meta.output = Some(p);
                match stream {
                    Stream::Stdout => {
                        self.session.meta.stdout_closed = true;
                    },
                    Stream::Stderr => {
                        self.session.meta.stderr_closed = true;
                    },
                }
                0
            },
            ReadResult::Bytes(count) => {
                if tail {
                    p.tail_read = p.tail_read + count as u64;
                    let fact = stream_fact(&mut p, stream);
                    fact.discarded = fact.discarded + count as u64;
                    fact.prefix_complete = false;
                    self.session.meta.output = Some(p);
                }
                count
            },
            ReadResult::Failed => {
                {
                    let fact = stream_fact(&mut p, stream);
                    fact.collection = Collection::Unconfirmed(CollectionCause::OutputRead);
                    fact.prefix_complete = false;
                }
                note_stop(&mut p, StopReason::OutputReadFault);
                self.session.meta.output = Some(p);
                let _ = self.start_hardened(now);
                0
            },
        }
    }

    /// Admits `count` bytes that were read, as far as the limit allows, and
    /// reserves what is admitted before any of it can be written. The rest is
    /// lost, and stops the session. The result is how many bytes to write.
    pub fn reserve(&mut self, now: u128, stream: Stream, count: usize) -> (r: usize)
        requires
            old(self).valid(),
            old(self).is_bounded(),
            now <= MAX_CLOCK,
            !old(self).pins.of(stream) || old(self).policy().admissible(count as int) == 0,
            old(self).policy().of(stream).discarded + count <= u64::MAX,
        ensures
            r == old(self).policy().admissible(count as int),
            final(self).became(
                *old(self),
                old(self).session.meta.with_output(
                    old(self).policy().admitted(stream, count as int),
                ),
                if r != count {
                    old(self).control_started(now)
                } else {
                    old(self).control()
                },
                if r > 0 {
                    old(self).pins.with(stream, true)
                } else {
                    old(self).pins
                },
            ),
            final(self).valid(),
    {
        proof {
            books_are_kept(
                self.policy(),
                self.pins,
                stream,
                count as int,
                StorageFault::Write,
                StopReason::OutputLimit,
                CollectionCause::OutputRead,
            );
        }
        let mut p = self.books();
        let mut pins = self.pins;
        let retained: usize = charge(&mut p, stream, count);
        if retained != 0 {
            pins = pins_with(pins, stream, true);
        }
        self.enter_books(p, pins);
        if retained != count {
            let _ = self.start_hardened(now);
        }
        retained
    }
}

/// How far a write came.
#[derive(Clone, Copy, Debug, PartialEq, Eq, Structural)]
pub struct WriteRun {
    /// Bytes that reached the file.
    pub written: usize,
    /// Whether the write returned, or is still outstanding.
    pub returned: bool,
    /// What was wrong with it, if anything was.
    pub fault: Option<StorageFault>,
}

/// How a write stands after the file took `count` more bytes of it; none is a
/// failure.
pub open spec fn write_once(written: usize, length: usize, count: usize) -> WriteRun {
    if count == 0 {
        WriteRun {
            written,
            returned: true,
            fault: Some(
                if written == 0 {
                    StorageFault::Write
                } else {
                    StorageFault::PartialWrite
                },
            ),
        }
    } else {
        WriteRun {
            written: (written + crate::broker::fits(count, length - written)) as usize,
            returned: false,
            fault: None,
        }
    }
}

/// How a write stands after all its bytes reached the file and it was flushed,
/// or not.
pub open spec fn write_flushed(length: usize, flushed: bool) -> WriteRun {
    WriteRun {
        written: length,
        returned: true,
        fault: if flushed {
            None
        } else {
            Some(StorageFault::Flush)
        },
    }
}

/// How a write of `length` bytes goes on when `written` of them have reached the
/// file and the file takes, one after the other, as many bytes as `counts` says.
/// None means that it failed; running out of counts means that the write has
/// not returned. `flushed` is whether the flush after the last byte succeeded,
/// once it was made.
pub open spec fn write_run(
    written: usize,
    length: usize,
    counts: Seq<usize>,
    flushed: Option<bool>,
) -> WriteRun
    decreases counts.len(),
{
    if written >= length {
        match flushed {
            Some(flushed) => write_flushed(length, flushed),
            None => WriteRun { written: length, returned: false, fault: None },
        }
    } else if counts.len() == 0 {
        WriteRun { written, returned: false, fault: None }
    } else {
        let once = write_once(written, length, counts[0]);
        if once.returned {
            once
        } else {
            write_run(once.written, length, counts.drop_first(), flushed)
        }
    }
}

proof fn write_run_bounds(
    written: usize,
    length: usize,
    counts: Seq<usize>,
    flushed: Option<bool>,
)
    requires
        written <= length,
    ensures
        ({
            let run = write_run(written, length, counts, flushed);
            &&& written <= run.written <= length
            &&& run.fault is Some ==> run.returned
            &&& run.returned && run.fault is None ==> run.written == length
        }),
    decreases counts.len(),
{
    if written < length && counts.len() > 0 && counts[0] != 0 {
        write_run_bounds(
            (written + crate::broker::fits(counts[0], length - written)) as usize,
            length,
            counts.drop_first(),
            flushed,
        );
    }
}

proof fn written_twice(meta: Meta, policy: OutputFact, stream: Stream, first: int, second: int)
    requires
        policy.within_limit(),
        0 <= first,
        0 <= second,
        first + second <= policy.of(stream).reserved,
    ensures
        policy.written(stream, first).written(stream, second) == policy.written(
            stream,
            first + second,
        ),
        policy.written(stream, first).of(stream).reserved == policy.of(stream).reserved - first,
        policy.written(stream, first).of(stream).discarded == policy.of(stream).discarded,
        meta.with_ends(policy.written(stream, first)).with_ends(
            policy.written(stream, first + second),
        ) == meta.with_ends(policy.written(stream, first + second)),
{
}

/// The facts after a write, of which `written` bytes had reached the file, came
/// as far as `run` says.
pub open spec fn after_write(
    policy: OutputFact,
    stream: Stream,
    length: usize,
    written: usize,
    run: WriteRun,
) -> OutputFact {
    let progressed = policy.written(stream, run.written - written);
    if run.returned {
        progressed.write_ended(stream, length - run.written, run.fault)
    } else {
        progressed
    }
}

impl<H: GroupSignal> Broker<H> {
    /// The file took `count` more bytes of a write of `length` bytes, of which
    /// `written` had reached it; none is a failure. What it took becomes public
    /// at once. What a failed write did not write is given back and counted as
    /// lost.
    fn wrote(&mut self, now: u128, stream: Stream, length: usize, written: usize, count: usize)
        -> (r: WriteRun)
        requires
            old(self).valid(),
            old(self).is_bounded(),
            now <= MAX_CLOCK,
            old(self).pins.of(stream),
            written < length,
            length - written == old(self).policy().of(stream).reserved,
            old(self).policy().of(stream).discarded + (length - written) <= u64::MAX,
        ensures
            r == write_once(written, length, count),
            r.returned ==> final(self).became(
                *old(self),
                old(self).session.meta.with_output(
                    old(self).policy().write_ended(stream, length - written, r.fault),
                ),
                old(self).control_started(now),
                old(self).pins.with(stream, false),
            ),
            !r.returned ==> final(self).became(
                *old(self),
                old(self).session.meta.with_ends(
                    old(self).policy().written(stream, r.written - written),
                ),
                old(self).control(),
                old(self).pins,
            ),
            final(self).valid(),
    {
        if count == 0 {
            let fault = if written == 0 {
                StorageFault::Write
            } else {
                StorageFault::PartialWrite
            };
            self.write_finished(now, stream, length - written, Some(fault));
            return WriteRun { written, returned: true, fault: Some(fault) };
        }
        let taken: usize = if count <= length - written {
            count
        } else {
            length - written
        };
        self.write_progress(stream, taken);
        WriteRun { written: written + taken, returned: false, fault: None }
    }

    /// All `length` bytes of a write reached the file, and it was flushed, or
    /// not.
    fn flushed(&mut self, now: u128, stream: Stream, length: usize, flushed: bool) -> (r:
        WriteRun)
        requires
            old(self).valid(),
            old(self).is_bounded(),
            now <= MAX_CLOCK,
            old(self).pins.of(stream),
            old(self).policy().of(stream).reserved == 0,
        ensures
            r == write_flushed(length, flushed),
            final(self).became(
                *old(self),
                old(self).session.meta.with_output(
                    old(self).policy().write_ended(stream, 0, r.fault),
                ),
                if r.fault is Some {
                    old(self).control_started(now)
                } else {
                    old(self).control()
                },
                old(self).pins.with(stream, false),
            ),
            final(self).valid(),
    {
        let fault = if flushed {
            None
        } else {
            Some(StorageFault::Flush)
        };
        self.write_finished(now, stream, 0, fault);
        WriteRun { written: length, returned: true, fault }
    }

    /// Follows a write of `length` bytes, of which `written` had reached the
    /// file and the rest is reserved. `counts` is how many more bytes the file
    /// took each time, in order; none is a failure. Each count becomes public
    /// as it is known. `flushed` is whether the flush after the last byte
    /// succeeded, once it was made. A write that has not returned keeps its
    /// reservation and its pin, and is followed further by another call.
    #[verifier::spinoff_prover]
    pub fn write_prefix(
        &mut self,
        now: u128,
        stream: Stream,
        length: usize,
        written: usize,
        counts: &[usize],
        flushed: Option<bool>,
    ) -> (r: WriteRun)
        requires
            old(self).valid(),
            old(self).is_bounded(),
            now <= MAX_CLOCK,
            old(self).pins.of(stream),
            written <= length,
            length - written == old(self).policy().of(stream).reserved,
            old(self).policy().of(stream).discarded + (length - written) <= u64::MAX,
        ensures
            r == write_run(written, length, counts@, flushed),
            final(self).became(
                *old(self),
                old(self).session.meta.with_ends(
                    after_write(old(self).policy(), stream, length, written, r),
                ),
                if r.fault is Some {
                    old(self).control_started(now)
                } else {
                    old(self).control()
                },
                if r.returned {
                    old(self).pins.with(stream, false)
                } else {
                    old(self).pins
                },
            ),
            final(self).valid(),
    {
        let mut reached: usize = written;
        let mut next: usize = 0;
        let ghost before = *self;
        proof {
            assert(counts@.skip(0) =~= counts@);
            write_run_bounds(written, length, counts@, flushed);
        }
        while reached < length
            invariant
                before == *old(self),
                before.valid(),
                before.is_bounded(),
                before.pins.of(stream),
                length - written == before.policy().of(stream).reserved,
                before.policy().of(stream).discarded + (length - written) <= u64::MAX,
                now <= MAX_CLOCK,
                self.valid(),
                self.is_bounded(),
                written <= reached <= length,
                next <= counts@.len(),
                write_run(written, length, counts@, flushed) == write_run(
                    reached,
                    length,
                    counts@.skip(next as int),
                    flushed,
                ),
                self.became(
                    before,
                    before.session.meta.with_ends(
                        before.policy().written(stream, reached - written),
                    ),
                    before.control(),
                    before.pins,
                ),
            decreases length - reached,
        {
            if next == counts.len() {
                return WriteRun { written: reached, returned: false, fault: None };
            }
            let count: usize = counts[next];
            proof {
                assert(counts@.skip(next as int)[0] == count);
                assert(counts@.skip(next as int).drop_first() =~= counts@.skip(next + 1));
                written_twice(
                    before.session.meta,
                    before.policy(),
                    stream,
                    reached - written,
                    write_once(reached, length, count).written - reached,
                );
            }
            let run = self.wrote(now, stream, length, reached, count);
            if run.returned {
                return run;
            }
            reached = run.written;
            next += 1;
        }
        match flushed {
            Some(flushed) => self.flushed(now, stream, length, flushed),
            None => WriteRun { written: length, returned: false, fault: None },
        }
    }
}

/// The facts that are told are those that are retained, with the command's exit
/// as it was recorded and what is known of its group. A stream is called complete
/// only if it gave its end and nothing of it is outstanding, and output sealed
/// only if nothing can be added to it.
pub proof fn facts_are_told_as_they_are<H: GroupSignal>(
    broker: Broker<H>,
    r: Option<OutputFact>,
)
    requires
        broker.valid(),
        call_ensures(Broker::<H>::fact, (&broker,), r),
    ensures
        r is Some <==> broker.session.meta.output is Some,
        r matches Some(told) ==> {
            let kept = broker.session.meta.output->0;
            let control = broker.cancellation->0;
            &&& told.limit == kept.limit
            &&& told.first_stop == kept.first_stop
            &&& told.io_inflight == kept.io_inflight
            &&& told.tail_read == kept.tail_read
            &&& told.leader_exit == broker.session.meta.status
            &&& told.original_group_absent == control.group_absent
            &&& told.group_control is Ready <==> control.phase is Ready
            &&& told.group_control is Settled <==> control.phase is Complete
            &&& told.group_control is Unconfirmed <==> control.phase is Failed
            &&& told.stdout.retained == kept.stdout.retained && told.stderr.retained
                == kept.stderr.retained
            &&& told.stdout.reserved == kept.stdout.reserved && told.stderr.reserved
                == kept.stderr.reserved
            &&& told.stdout.discarded == kept.stdout.discarded && told.stderr.discarded
                == kept.stderr.discarded
            &&& told.stdout.storage_fault == kept.stdout.storage_fault
                && told.stderr.storage_fault == kept.stderr.storage_fault
            &&& told.stdout.collection == kept.stdout.collection && told.stderr.collection
                == kept.stderr.collection
            &&& told.stdout.prefix_complete <==> kept.stdout.prefix_complete
                && kept.stdout.collection is Eof && kept.stdout.reserved == 0 && kept.io_inflight
                == 0
            &&& told.stderr.prefix_complete <==> kept.stderr.prefix_complete
                && kept.stderr.collection is Eof && kept.stderr.reserved == 0 && kept.io_inflight
                == 0
            &&& told.sealed <==> kept.io_inflight == 0 && (kept.first_stop is Some || (
            kept.stdout.collection !is Reading && kept.stderr.collection !is Reading))
        },
{
}

/// A session that is stopped keeps its first reason, and its cancellation has
/// begun when the call returns: with the session's own periods, if it begins now.
/// What was collected stays.
pub proof fn stops_begin_cancellation<H: GroupSignal>(
    broker: &mut Broker<H>,
    now: u128,
    reason: StopReason,
)
    requires
        old(broker).valid(),
        old(broker).is_bounded(),
        now <= MAX_CLOCK,
        call_ensures(Broker::<H>::stop, (broker, now, reason), ()),
    ensures
        ({
            let before = old(broker).session.meta.output->0;
            let after = final(broker).session.meta.output->0;
            let control = final(broker).cancellation->0;
            &&& before.first_stop is None ==> after.first_stop == Some(reason)
            &&& before.first_stop is Some ==> after.first_stop == before.first_stop
            &&& after.stdout == before.stdout && after.stderr == before.stderr
            &&& control.phase !is Ready
            &&& old(broker).cancellation->0.phase is Ready ==> {
                &&& control.phase is Term
                &&& control.grace_deadline == Some((now + old(broker).grace) as u128)
                &&& control.finish_deadline == Some(
                    (now + old(broker).grace + old(broker).settlement) as u128,
                )
            }
            &&& old(broker).cancellation->0.phase !is Ready ==> {
                &&& control.phase == old(broker).cancellation->0.phase
                &&& control.finish_deadline == old(broker).cancellation->0.finish_deadline
            }
            &&& final(broker).pins == old(broker).pins
        }),
{
    assert(final(broker).cancellation->0@ == old(broker).control_started(now));
}

/// A storage fault takes back what its stream claims, keeps the first fault of the
/// stream, stops the session and makes sure that its cancellation has begun.
/// Nothing that is retained is lost by it.
pub proof fn storage_faults_stop_the_session<H: GroupSignal>(
    broker: &mut Broker<H>,
    now: u128,
    stream: Stream,
    fault: StorageFault,
)
    requires
        old(broker).valid(),
        old(broker).is_bounded(),
        now <= MAX_CLOCK,
        call_ensures(Broker::<H>::storage_fault, (broker, now, stream, fault), ()),
    ensures
        ({
            let before = old(broker).session.meta.output->0;
            let after = final(broker).session.meta.output->0;
            let (own, own_after, other, other_after) = match stream {
                Stream::Stdout => (before.stdout, after.stdout, before.stderr, after.stderr),
                Stream::Stderr => (before.stderr, after.stderr, before.stdout, after.stdout),
            };
            &&& !own_after.prefix_complete
            &&& own.storage_fault is None ==> own_after.storage_fault == Some(fault)
            &&& own.storage_fault is Some ==> own_after.storage_fault == own.storage_fault
            &&& own_after.retained == own.retained && own_after.reserved == own.reserved
                && own_after.discarded == own.discarded && own_after.collection == own.collection
            &&& other_after == other
            &&& before.first_stop is None ==> after.first_stop == Some(StopReason::StorageFault)
            &&& before.first_stop is Some ==> after.first_stop == before.first_stop
            &&& final(broker).cancellation->0.phase !is Ready
            &&& final(broker).pins == old(broker).pins
        }),
{
    assert(final(broker).cancellation->0@ == old(broker).control_started(now));
}

/// Bytes that reach the file leave the reservation and are retained, and the
/// public end of their stream is what is retained of it.
pub proof fn written_bytes_become_public<H: GroupSignal>(
    broker: &mut Broker<H>,
    stream: Stream,
    count: usize,
)
    requires
        old(broker).valid(),
        old(broker).is_bounded(),
        count <= old(broker).policy().of(stream).reserved,
        call_ensures(Broker::<H>::write_progress, (broker, stream, count), ()),
    ensures
        ({
            let before = old(broker).session.meta.output->0;
            let after = final(broker).session.meta.output->0;
            let (own, own_after, other, other_after) = match stream {
                Stream::Stdout => (before.stdout, after.stdout, before.stderr, after.stderr),
                Stream::Stderr => (before.stderr, after.stderr, before.stdout, after.stdout),
            };
            &&& own_after.retained == own.retained + count
            &&& own_after.reserved == own.reserved - count
            &&& own_after.discarded == own.discarded
            &&& own_after.prefix_complete == own.prefix_complete
            &&& other_after == other
            &&& after.io_inflight == before.io_inflight
            &&& after.first_stop == before.first_stop
            &&& final(broker).session.meta.stdout_end == after.stdout.retained
            &&& final(broker).session.meta.stderr_end == after.stderr.retained
            &&& final(broker).pins == old(broker).pins
        }),
{
}

/// A write that returned holds nothing any more: what it did not write is counted
/// as lost, and its pin is free. Only one that wrote everything without a fault
/// leaves its stream's claim as it was.
pub proof fn returned_writes_hold_nothing<H: GroupSignal>(
    broker: &mut Broker<H>,
    now: u128,
    stream: Stream,
    unused: usize,
    fault: Option<StorageFault>,
)
    requires
        old(broker).valid(),
        old(broker).is_bounded(),
        now <= MAX_CLOCK,
        old(broker).pins.of(stream),
        unused == old(broker).policy().of(stream).reserved,
        old(broker).policy().of(stream).discarded + unused <= u64::MAX,
        call_ensures(Broker::<H>::write_finished, (broker, now, stream, unused, fault), ()),
    ensures
        ({
            let before = old(broker).session.meta.output->0;
            let after = final(broker).session.meta.output->0;
            let (own, own_after, other, other_after) = match stream {
                Stream::Stdout => (before.stdout, after.stdout, before.stderr, after.stderr),
                Stream::Stderr => (before.stderr, after.stderr, before.stdout, after.stdout),
            };
            &&& own_after.reserved == 0
            &&& own_after.discarded == own.discarded + unused
            &&& own_after.retained == own.retained
            &&& own_after.prefix_complete <==> own.prefix_complete && unused == 0 && fault is None
            &&& other_after == other
            &&& after.io_inflight == before.io_inflight - 1
            &&& stream is Stdout ==> !final(broker).pins.stdout
                && final(broker).pins.stderr == old(broker).pins.stderr
            &&& stream is Stderr ==> !final(broker).pins.stderr
                && final(broker).pins.stdout == old(broker).pins.stdout
            &&& final(broker).pins.replay == old(broker).pins.replay
            &&& fault is None ==> after.first_stop == before.first_stop && own_after.storage_fault
                == own.storage_fault && final(broker).cancellation->0.phase == old(broker).cancellation->0.phase
            &&& fault is Some ==> after.first_stop is Some && own_after.storage_fault is Some
                && final(broker).cancellation->0.phase !is Ready
            &&& fault is Some && own.storage_fault is None ==> own_after.storage_fault == fault
            &&& fault is Some && before.first_stop is None ==> after.first_stop == Some(
                StopReason::StorageFault,
            )
        }),
{
    assert(fault is Some ==> final(broker).cancellation->0@ == old(broker).control_started(now));
    assert(fault is None ==> final(broker).cancellation->0@ == old(broker).cancellation->0@);
}

/// Giving collection up marks exactly the streams that were still read, with the
/// cause; an end that was seen stays seen, and every count stays.
pub proof fn giving_up_marks_open_streams<H: GroupSignal>(
    broker: &mut Broker<H>,
    cause: CollectionCause,
)
    requires
        old(broker).valid(),
        old(broker).is_bounded(),
        call_ensures(Broker::<H>::close_collection, (broker, cause), ()),
    ensures
        ({
            let before = old(broker).session.meta.output->0;
            let after = final(broker).session.meta.output->0;
            &&& before.stdout.collection is Reading ==> after.stdout.collection
                == Collection::Unconfirmed(cause)
            &&& before.stderr.collection is Reading ==> after.stderr.collection
                == Collection::Unconfirmed(cause)
            &&& before.stdout.collection !is Reading ==> after.stdout == before.stdout
            &&& before.stderr.collection !is Reading ==> after.stderr == before.stderr
            &&& after.stdout.retained == before.stdout.retained && after.stdout.discarded
                == before.stdout.discarded && after.stdout.reserved == before.stdout.reserved
            &&& after.stderr.retained == before.stderr.retained && after.stderr.discarded
                == before.stderr.discarded && after.stderr.reserved == before.stderr.reserved
            &&& after.first_stop == before.first_stop
            &&& after.io_inflight == before.io_inflight
            &&& final(broker).session.meta.stdout_closed == old(broker).session.meta.stdout_closed
            &&& final(broker).session.meta.stderr_closed == old(broker).session.meta.stderr_closed
        }),
{
}

/// Only an end of file closes a stream. A failed read marks its stream, stops the
/// session and makes sure that its cancellation has begun. Bytes of the tail are
/// counted as lost; other bytes are left for admission and change nothing.
pub proof fn reads_are_noted_as_they_are<H: GroupSignal>(
    broker: &mut Broker<H>,
    now: u128,
    stream: Stream,
    result: ReadResult,
    tail: bool,
    r: usize,
)
    requires
        old(broker).valid(),
        old(broker).is_bounded(),
        now <= MAX_CLOCK,
        result matches ReadResult::Bytes(count) ==> {
            &&& count > 0
            &&& tail ==> old(broker).policy().tail_read + count <= TAIL_BYTES
                && old(broker).policy().of(stream).discarded + count <= u64::MAX
        },
        call_ensures(Broker::<H>::observed, (broker, now, stream, result, tail), r),
    ensures
        ({
            let before = old(broker).session.meta.output->0;
            let after = final(broker).session.meta.output->0;
            let (own, own_after, other, other_after) = match stream {
                Stream::Stdout => (before.stdout, after.stdout, before.stderr, after.stderr),
                Stream::Stderr => (before.stderr, after.stderr, before.stdout, after.stdout),
            };
            let (closed, closed_after) = match stream {
                Stream::Stdout => (
                    old(broker).session.meta.stdout_closed,
                    final(broker).session.meta.stdout_closed,
                ),
                Stream::Stderr => (
                    old(broker).session.meta.stderr_closed,
                    final(broker).session.meta.stderr_closed,
                ),
            };
            &&& other_after == other
            &&& own_after.retained == own.retained && own_after.reserved == own.reserved
            &&& result is Eof ==> closed_after && own_after.collection is Eof && own_after.discarded
                == own.discarded && after.first_stop == before.first_stop && r == 0
            &&& result !is Eof ==> closed_after == closed
            &&& result is Failed ==> {
                &&& own_after.collection == Collection::Unconfirmed(CollectionCause::OutputRead)
                &&& !own_after.prefix_complete
                &&& before.first_stop is None ==> after.first_stop == Some(
                    StopReason::OutputReadFault,
                )
                &&& before.first_stop is Some ==> after.first_stop == before.first_stop
                &&& final(broker).cancellation->0.phase !is Ready
                &&& r == 0
            }
            &&& result matches ReadResult::Bytes(count) ==> {
                &&& r == count
                &&& own_after.collection == own.collection
                &&& after.first_stop == before.first_stop
                &&& tail ==> own_after.discarded == own.discarded + count && after.tail_read
                    == before.tail_read + count && !own_after.prefix_complete
                &&& !tail ==> after == before
            }
        }),
{
    assert(result is Failed ==> final(broker).cancellation->0@ == old(broker).control_started(now));
}

/// Of bytes that were read as many are admitted as the limit leaves room for, and
/// none once the session is stopped. Every byte is either reserved or counted as
/// lost; a loss stops the session, and its cancellation has begun when the call
/// returns. What is admitted pins its stream.
pub proof fn admission_keeps_to_the_limit<H: GroupSignal>(
    broker: &mut Broker<H>,
    now: u128,
    stream: Stream,
    count: usize,
    r: usize,
)
    requires
        old(broker).valid(),
        old(broker).is_bounded(),
        now <= MAX_CLOCK,
        !old(broker).pins.of(stream) || old(broker).policy().admissible(count as int) == 0,
        old(broker).policy().of(stream).discarded + count <= u64::MAX,
        call_ensures(Broker::<H>::reserve, (broker, now, stream, count), r),
    ensures
        ({
            let before = old(broker).session.meta.output->0;
            let after = final(broker).session.meta.output->0;
            let room = before.limit - before.stdout.retained - before.stdout.reserved
                - before.stderr.retained - before.stderr.reserved;
            let (own, own_after, other, other_after) = match stream {
                Stream::Stdout => (before.stdout, after.stdout, before.stderr, after.stderr),
                Stream::Stderr => (before.stderr, after.stderr, before.stdout, after.stdout),
            };
            &&& before.first_stop is Some ==> r == 0
            &&& before.first_stop is None && count <= room ==> r == count
            &&& before.first_stop is None && count > room ==> r == room
            &&& own_after.reserved == own.reserved + r
            &&& own_after.discarded == own.discarded + (count - r)
            &&& own_after.retained == own.retained
            &&& own_after.collection == own.collection
            &&& own_after.prefix_complete <==> own.prefix_complete && r == count
            &&& other_after == other
            &&& r < count ==> after.first_stop is Some && final(broker).cancellation->0.phase
                !is Ready
            &&& r < count && before.first_stop is None ==> after.first_stop == Some(
                StopReason::OutputLimit,
            )
            &&& r == count ==> after.first_stop == before.first_stop
                && final(broker).cancellation->0.phase == old(broker).cancellation->0.phase
            &&& r > 0 ==> after.io_inflight == before.io_inflight + 1 && (match stream {
                Stream::Stdout => final(broker).pins.stdout,
                Stream::Stderr => final(broker).pins.stderr,
            })
            &&& r == 0 ==> after.io_inflight == before.io_inflight
                && final(broker).pins == old(broker).pins
            &&& final(broker).session.meta.stdout_end == old(broker).session.meta.stdout_end
            &&& final(broker).session.meta.stderr_end == old(broker).session.meta.stderr_end
        }),
{
    assert(r != count ==> final(broker).cancellation->0@ == old(broker).control_started(now));
    assert(r == count ==> final(broker).cancellation->0@ == old(broker).cancellation->0@);
}

proof fn write_run_faults(
    written: usize,
    length: usize,
    counts: Seq<usize>,
    flushed: Option<bool>,
)
    requires
        written <= length,
    ensures
        ({
            let run = write_run(written, length, counts, flushed);
            &&& run.fault is Some <==> run.returned && !(run.written == length && flushed == Some(
                true,
            ))
            &&& run.fault matches Some(fault) ==> {
                &&& run.written == length <==> fault is Flush
                &&& run.written == 0 && length > 0 <==> fault is Write
                &&& 0 < run.written < length <==> fault is PartialWrite
            }
            &&& run.written == length ==> (run.returned <==> flushed is Some)
            &&& run.written == length && run.returned ==> (run.fault is Some <==> flushed == Some(
                false,
            ))
        }),
    decreases counts.len(),
{
    if written < length && counts.len() > 0 && counts[0] != 0 {
        write_run_faults(
            (written + crate::broker::fits(counts[0], length - written)) as usize,
            length,
            counts.drop_first(),
            flushed,
        );
    }
}

proof fn write_run_comes_to_its_end(
    written: usize,
    length: usize,
    counts: Seq<usize>,
    flushed: Option<bool>,
)
    requires
        written <= length,
        counts.len() >= length - written,
        forall|i: int| 0 <= i < counts.len() ==> #[trigger] counts[i] > 0,
    ensures
        write_run(written, length, counts, flushed).written == length,
    decreases counts.len(),
{
    if written < length {
        assert(counts[0] > 0);
        let rest = counts.drop_first();
        assert forall|i: int| 0 <= i < rest.len() implies #[trigger] rest[i] > 0 by {
            assert(rest[i] == counts[i + 1]);
        }
        write_run_comes_to_its_end(
            (written + crate::broker::fits(counts[0], length - written)) as usize,
            length,
            rest,
            flushed,
        );
    }
}

/// Every byte of a write is accounted for: what reached the file is retained, what
/// is outstanding stays reserved, and what a write that returned did not write is
/// lost. It returns without a fault exactly if all its bytes reached the file and
/// were flushed; otherwise its fault says whether nothing, something or everything
/// was written.
pub proof fn writes_account_for_every_byte<H: GroupSignal>(
    broker: &mut Broker<H>,
    now: u128,
    stream: Stream,
    length: usize,
    written: usize,
    counts: &[usize],
    flushed: Option<bool>,
    r: WriteRun,
)
    requires
        old(broker).valid(),
        old(broker).is_bounded(),
        now <= MAX_CLOCK,
        old(broker).pins.of(stream),
        written <= length,
        length - written == old(broker).policy().of(stream).reserved,
        old(broker).policy().of(stream).discarded + (length - written) <= u64::MAX,
        call_ensures(
            Broker::<H>::write_prefix,
            (broker, now, stream, length, written, counts, flushed),
            r,
        ),
    ensures
        ({
            let before = old(broker).session.meta.output->0;
            let after = final(broker).session.meta.output->0;
            let (own, own_after, other, other_after) = match stream {
                Stream::Stdout => (before.stdout, after.stdout, before.stderr, after.stderr),
                Stream::Stderr => (before.stderr, after.stderr, before.stdout, after.stdout),
            };
            let pinned = match stream {
                Stream::Stdout => final(broker).pins.stdout,
                Stream::Stderr => final(broker).pins.stderr,
            };
            &&& written <= r.written <= length
            &&& own_after.retained == own.retained + (r.written - written)
            &&& own_after.retained + own_after.reserved + own_after.discarded == own.retained
                + own.reserved + own.discarded
            &&& r.returned ==> own_after.reserved == 0 && after.io_inflight == before.io_inflight
                - 1 && !pinned
            &&& !r.returned ==> own_after.discarded == own.discarded && after.io_inflight
                == before.io_inflight && pinned && r.fault is None
            &&& other_after == other
            &&& final(broker).session.meta.stdout_end == after.stdout.retained
            &&& final(broker).session.meta.stderr_end == after.stderr.retained
            &&& r.returned && r.fault is None <==> r.written == length && flushed == Some(true)
            &&& r.fault matches Some(fault) ==> {
                &&& r.returned
                &&& fault is Flush <==> r.written == length
                &&& fault is PartialWrite <==> 0 < r.written < length
                &&& after.first_stop is Some
                &&& final(broker).cancellation->0.phase !is Ready
                &&& !own_after.prefix_complete
            }
            &&& r.fault is None ==> after.first_stop == before.first_stop
                && own_after.prefix_complete == own.prefix_complete
            &&& counts@.len() >= length - written && (forall|i: int|
                0 <= i < counts@.len() ==> #[trigger] counts@[i] > 0) ==> r.written == length
        }),
{
    write_run_bounds(written, length, counts@, flushed);
    write_run_faults(written, length, counts@, flushed);
    if counts@.len() >= length - written && (forall|i: int|
        0 <= i < counts@.len() ==> #[trigger] counts@[i] > 0) {
        write_run_comes_to_its_end(written, length, counts@, flushed);
    }
    assert(r.fault is Some ==> final(broker).cancellation->0@ == old(broker).control_started(now));
}

/// Beginning the cancellation of a session fixes its deadlines with the session's
/// own periods; it begins once, and what was collected does not change.
pub proof fn cancellation_begins_with_the_sessions_periods<H: GroupSignal>(
    broker: &mut Broker<H>,
    now: u128,
    r: bool,
)
    requires
        old(broker).valid(),
        old(broker).cancellation is Some,
        now <= MAX_CLOCK,
        call_ensures(Broker::<H>::start_hardened, (broker, now), r),
    ensures
        ({
            let before = old(broker).cancellation->0;
            let after = final(broker).cancellation->0;
            &&& r <==> before.phase is Ready
            &&& r ==> {
                &&& after.phase is Term
                &&& after.grace_deadline == Some((now + old(broker).grace) as u128)
                &&& after.finish_deadline == Some(
                    (now + old(broker).grace + old(broker).settlement) as u128,
                )
            }
            &&& !r ==> after.phase == before.phase && after.finish_deadline
                == before.finish_deadline && after.grace_deadline == before.grace_deadline
            &&& final(broker).session == old(broker).session
            &&& final(broker).pins == old(broker).pins
        }),
{
    assert(final(broker).cancellation->0@ == old(broker).control_started(now));
}

/// The account of a stream is that stream's own, and the other one stays as it is.
pub proof fn accounts_are_kept_apart(policy: &mut OutputFact, stream: Stream, r: &mut StreamFact)
    requires
        call_ensures(stream_fact, (policy, stream), r),
    ensures
        stream is Stdout ==> *old(r) == old(policy).stdout && final(policy).stdout == *final(r)
            && final(policy).stderr == old(policy).stderr,
        stream is Stderr ==> *old(r) == old(policy).stderr && final(policy).stderr == *final(r)
            && final(policy).stdout == old(policy).stdout,
        final(policy).limit == old(policy).limit,
        final(policy).first_stop == old(policy).first_stop,
{
}

/// A file that takes nothing more has failed: at its first byte, or in the middle of
/// a write. What was not written is then lost.
pub proof fn files_that_take_nothing_have_failed<H: GroupSignal>(
    broker: &mut Broker<H>,
    now: u128,
    stream: Stream,
    length: usize,
    written: usize,
    counts: &[usize],
    flushed: Option<bool>,
    r: WriteRun,
)
    requires
        old(broker).valid(),
        old(broker).is_bounded(),
        now <= MAX_CLOCK,
        old(broker).pins.of(stream),
        written < length,
        length - written == old(broker).policy().of(stream).reserved,
        old(broker).policy().of(stream).discarded + (length - written) <= u64::MAX,
        counts@.len() > 0,
        counts@[0] == 0,
        call_ensures(
            Broker::<H>::write_prefix,
            (broker, now, stream, length, written, counts, flushed),
            r,
        ),
    ensures
        r.returned,
        r.written == written,
        r.fault == Some(
            if written == 0 {
                StorageFault::Write
            } else {
                StorageFault::PartialWrite
            },
        ),
{
}

} // verus!
