//! The collector of a bounded session: when to read which output pipe, how
//! much, and when to give up.
use vstd::prelude::*;

use crate::broker::bounds::{ReadResult, TAIL_NANOS};
use crate::broker::{Broker, Meta, Stream, MAX_CLOCK};
use crate::cancellation::CancellationView;
use crate::group_pidfd::GroupSignal;
use crate::output::{
    Collection, CollectionCause, OutputFact, StopReason, StorageFault, MAX_LIMIT, READ_SIZE,
    TAIL_BYTES,
};

verus! {

/// What the collector keeps for itself.
#[derive(Clone, Copy, Debug, PartialEq, Eq, Structural)]
pub struct Collector {
    /// Whether a write worker of the stream has yet to hand its file back.
    pub stdout_writing: bool,
    pub stderr_writing: bool,
    /// Which stream is read first when both are ready.
    pub prefer_stdout: bool,
    /// When the tail drain ends, once it has begun.
    pub tail_deadline: Option<u128>,
}

/// What the collector waits for: a write to return, a change, the deadline, or
/// a read of at most `read_size` bytes from an enabled stream.
#[derive(Clone, Copy, Debug, PartialEq, Eq, Structural)]
pub struct CollectWait {
    pub read_size: usize,
    pub stdout: bool,
    pub stderr: bool,
    pub tail: bool,
    pub deadline: Option<u128>,
}

/// What a turn of the collector comes to.
#[derive(Clone, Copy, Debug, PartialEq, Eq, Structural)]
pub enum CollectStep {
    /// Both streams ended and every write returned.
    Done,
    /// Collection is given up. Outstanding writes keep their files, charges and
    /// pins.
    GaveUp(CollectionCause),
    Wait(CollectWait),
}

impl Collector {
    pub open spec fn writing(self) -> bool {
        self.stdout_writing || self.stderr_writing
    }

    /// The collector with the tail begun, if it is time for it: admission has
    /// stopped, the group is gone for good, and no write is outstanding.
    pub open spec fn tailed(self, policy: OutputFact, control: CancellationView, now: u128) -> Collector {
        if policy.first_stop is Some && control.group_absent && !self.writing()
            && self.tail_deadline is None {
            let latest = (now + TAIL_NANOS) as u128;
            let bound = match control.finish_deadline {
                Some(end) => end,
                None => now,
            };
            Collector {
                tail_deadline: Some(
                    if latest <= bound {
                        latest
                    } else {
                        bound
                    },
                ),
                ..self
            }
        } else {
            self
        }
    }

    /// What the collector waits for.
    pub open spec fn waits(self, policy: OutputFact, control: CancellationView) -> CollectWait {
        let stopped = policy.first_stop is Some;
        let tail = stopped && self.tail_deadline is Some;
        let room = policy.limit - policy.charged();
        let size = if tail {
            TAIL_BYTES - policy.tail_read
        } else {
            room + 1
        };
        let reading = !stopped || tail;
        CollectWait {
            read_size: if size <= READ_SIZE {
                size as usize
            } else {
                READ_SIZE
            },
            stdout: reading && policy.stdout.collection == Collection::Reading && (
            !self.stdout_writing || (!tail && room == 0)),
            stderr: reading && policy.stderr.collection == Collection::Reading && (
            !self.stderr_writing || (!tail && room == 0)),
            tail,
            deadline: if self.tail_deadline is Some {
                self.tail_deadline
            } else {
                control.finish_deadline
            },
        }
    }

    /// What a turn comes to.
    pub open spec fn turn(
        self,
        policy: OutputFact,
        control: CancellationView,
        now: u128,
    ) -> CollectStep {
        let finish = control.finish_deadline;
        let tailed = self.tailed(policy, control, now);
        let tail = policy.first_stop is Some && tailed.tail_deadline is Some;
        if policy.is_collected() && !self.writing() {
            CollectStep::Done
        } else if finish is Some && now >= finish->0 {
            CollectStep::GaveUp(
                if policy.io_inflight != 0 {
                    CollectionCause::StoragePending
                } else {
                    CollectionCause::OperationDeadline
                },
            )
        } else if control.result is Some && !control.group_absent && (policy.first_stop is Some
            || finish is Some) {
            CollectStep::GaveUp(CollectionCause::GroupUnconfirmed)
        } else if tail && now >= tailed.tail_deadline->0 {
            CollectStep::GaveUp(CollectionCause::TailTime)
        } else if tail && policy.tail_read == TAIL_BYTES {
            CollectStep::GaveUp(CollectionCause::TailBytes)
        } else {
            CollectStep::Wait(tailed.waits(policy, control))
        }
    }

    /// The collector after a turn.
    pub open spec fn turned(
        self,
        policy: OutputFact,
        control: CancellationView,
        now: u128,
    ) -> Collector {
        let finish = control.finish_deadline;
        if (policy.is_collected() && !self.writing()) || (finish is Some && now >= finish->0) || (
        control.result is Some && !control.group_absent && (policy.first_stop is Some
            || finish is Some)) {
            self
        } else {
            self.tailed(policy, control, now)
        }
    }

    /// A collector whose streams have just been opened.
    pub fn new() -> (r: Collector)
        ensures
            r == (Collector {
                stdout_writing: false,
                stderr_writing: false,
                prefer_stdout: true,
                tail_deadline: None,
            }),
    {
        Collector {
            stdout_writing: false,
            stderr_writing: false,
            prefer_stdout: true,
            tail_deadline: None,
        }
    }

    pub open spec fn with_writing(self, stream: Stream, writing: bool) -> Collector {
        match stream {
            Stream::Stdout => Collector { stdout_writing: writing, ..self },
            Stream::Stderr => Collector { stderr_writing: writing, ..self },
        }
    }

    fn set_writing(&mut self, stream: Stream, writing: bool)
        ensures
            *final(self) == old(self).with_writing(stream, writing),
    {
        match stream {
            Stream::Stdout => {
                self.stdout_writing = writing;
            },
            Stream::Stderr => {
                self.stderr_writing = writing;
            },
        }
    }

    fn begin_tail(&mut self, now: u128, finish: Option<u128>)
        requires
            now <= MAX_CLOCK,
        ensures
            final(self).tail_deadline == Some(
                ({
                    let latest = (now + TAIL_NANOS) as u128;
                    let bound = match finish {
                        Some(end) => end,
                        None => now,
                    };
                    if latest <= bound {
                        latest
                    } else {
                        bound
                    }
                }),
            ),
            *final(self) == (Collector { tail_deadline: final(self).tail_deadline, ..*old(self) }),
    {
        let latest: u128 = now + TAIL_NANOS;
        let bound: u128 = match finish {
            Some(end) => end,
            None => now,
        };
        self.tail_deadline = Some(
            if latest <= bound {
                latest
            } else {
                bound
            },
        );
    }
}

impl<H: GroupSignal> Broker<H> {
    /// Notes that an output pipe could not be set up.
    pub fn pipe_missing(&mut self, now: u128, stream: Stream)
        requires
            old(self).valid(),
            old(self).is_bounded(),
            now <= MAX_CLOCK,
        ensures
            final(self).became(
                *old(self),
                old(self).session.meta.with_output(
                    old(self).policy().ended(
                        stream,
                        Collection::Unconfirmed(CollectionCause::PipeSetup),
                    ).stopped_for(StopReason::PipeSetupFault),
                ),
                old(self).control_started(now),
                old(self).pins,
            ),
            final(self).valid(),
    {
        if let Some(policy) = self.session.meta.output {
            let mut p = policy;
            let missing = Collection::Unconfirmed(CollectionCause::PipeSetup);
            crate::broker::bounds::stream_fact(&mut p, stream).collection = missing;
            self.session.meta.output = Some(p);
            self.stop(now, StopReason::PipeSetupFault);
        }
    }

    /// One turn of the collector: whether it is done, gives up, or what it
    /// waits for. Giving up is recorded here.
    pub fn collect(&mut self, collector: &mut Collector, now: u128) -> (r: CollectStep)
        requires
            old(self).valid(),
            old(self).is_bounded(),
            now <= MAX_CLOCK,
        ensures
            r == old(collector).turn(old(self).policy(), old(self).control(), now),
            *final(collector) == old(collector).turned(old(self).policy(), old(self).control(), now),
            final(self).became(
                *old(self),
                match r {
                    CollectStep::GaveUp(cause) => old(self).session.meta.with_output(
                        old(self).policy().given_up(cause),
                    ),
                    _ => old(self).session.meta,
                },
                old(self).control(),
                old(self).pins,
            ),
            final(self).valid(),
    {
        let p = match self.session.meta.output {
            Some(policy) => policy,
            None => {
                return CollectStep::Done;
            },
        };
        let (absent, finished, finish) = match &self.cancellation {
            Some(cancellation) => (
                cancellation.group_absent(),
                cancellation.finished(),
                cancellation.finish_deadline(),
            ),
            None => (false, false, None),
        };
        let writing = collector.stdout_writing || collector.stderr_writing;
        if p.collected() && !writing {
            return CollectStep::Done;
        }
        let stopped = p.first_stop.is_some();
        let expired = match finish {
            Some(end) => now >= end,
            None => false,
        };
        if expired {
            let cause = if p.io_inflight != 0 {
                CollectionCause::StoragePending
            } else {
                CollectionCause::OperationDeadline
            };
            self.close_collection(cause);
            return CollectStep::GaveUp(cause);
        }
        if finished && !absent && (stopped || finish.is_some()) {
            self.close_collection(CollectionCause::GroupUnconfirmed);
            return CollectStep::GaveUp(CollectionCause::GroupUnconfirmed);
        }
        if stopped && absent && !writing && collector.tail_deadline.is_none() {
            collector.begin_tail(now, finish);
        }
        let tail = stopped && collector.tail_deadline.is_some();
        if tail {
            let late = match collector.tail_deadline {
                Some(end) => now >= end,
                None => false,
            };
            if late {
                self.close_collection(CollectionCause::TailTime);
                return CollectStep::GaveUp(CollectionCause::TailTime);
            }
            if p.tail_read == TAIL_BYTES {
                self.close_collection(CollectionCause::TailBytes);
                return CollectStep::GaveUp(CollectionCause::TailBytes);
            }
        }
        let room: u64 = p.available();
        let size: u64 = if tail {
            TAIL_BYTES - p.tail_read
        } else {
            room + 1
        };
        let read_size: usize = if size <= READ_SIZE as u64 {
            size as usize
        } else {
            READ_SIZE
        };
        let reading = !stopped || tail;
        let stdout = reading && p.stdout.collection == Collection::Reading && (
        !collector.stdout_writing || (!tail && room == 0));
        let stderr = reading && p.stderr.collection == Collection::Reading && (
        !collector.stderr_writing || (!tail && room == 0));
        let deadline = match collector.tail_deadline {
            Some(end) => Some(end),
            None => finish,
        };
        CollectStep::Wait(CollectWait { read_size, stdout, stderr, tail, deadline })
    }

    /// A write worker handed its file back, or was lost with it.
    pub fn collect_written(
        &mut self,
        collector: &mut Collector,
        now: u128,
        stream: Stream,
        lost: bool,
    )
        requires
            old(self).valid(),
            old(self).is_bounded(),
            now <= MAX_CLOCK,
        ensures
            *final(collector) == old(collector).with_writing(stream, false),
            final(self).became(
                *old(self),
                if lost {
                    old(self).session.meta.with_output(
                        old(self).policy().faulted(stream, StorageFault::WorkerLost),
                    )
                } else {
                    old(self).session.meta
                },
                if lost {
                    old(self).control_started(now)
                } else {
                    old(self).control()
                },
                old(self).pins,
            ),
            final(self).valid(),
    {
        collector.set_writing(stream, false);
        if lost {
            self.storage_fault(now, stream, StorageFault::WorkerLost);
        }
    }

    /// What the retained state becomes when a read gives `result` and its bytes
    /// are dealt with.
    pub open spec fn meta_collected(self, stream: Stream, result: ReadResult, tail: bool) -> Meta {
        match result {
            ReadResult::Bytes(count) => if tail {
                self.meta_observed(stream, result, tail)
            } else {
                self.session.meta.with_output(self.policy().admitted(stream, count as int))
            },
            _ => self.meta_observed(stream, result, tail),
        }
    }

    /// How many bytes of a read are to be written.
    pub open spec fn bytes_to_write(self, result: ReadResult, tail: bool) -> int {
        match result {
            ReadResult::Bytes(count) => if tail {
                0
            } else {
                self.policy().admissible(count as int)
            },
            _ => 0,
        }
    }

    /// Whether a read makes cancellation begin.
    pub open spec fn read_starts(self, result: ReadResult, tail: bool) -> bool {
        match result {
            ReadResult::Bytes(count) => !tail && self.policy().admissible(count as int) != count,
            ReadResult::Failed => true,
            ReadResult::Eof => false,
        }
    }

    /// A read that a turn enabled gave `result`. The other stream is preferred
    /// next. The result is how many of its bytes a worker has to write now.
    pub fn collect_read(
        &mut self,
        collector: &mut Collector,
        now: u128,
        stream: Stream,
        result: ReadResult,
        tail: bool,
    ) -> (r: usize)
        requires
            old(self).valid(),
            old(self).is_bounded(),
            now <= MAX_CLOCK,
            result matches ReadResult::Bytes(count) ==> {
                &&& count > 0
                &&& old(self).policy().of(stream).discarded + count <= u64::MAX
                &&& tail ==> old(self).policy().tail_read + count <= TAIL_BYTES
                &&& !tail ==> !old(self).pins.of(stream) || old(self).policy().admissible(
                    count as int,
                ) == 0
            },
        ensures
            r == old(self).bytes_to_write(result, tail),
            *final(collector) == (Collector {
                prefer_stdout: stream == Stream::Stderr,
                ..(if r > 0 {
                    old(collector).with_writing(stream, true)
                } else {
                    *old(collector)
                })
            }),
            final(self).became(
                *old(self),
                old(self).meta_collected(stream, result, tail),
                if old(self).read_starts(result, tail) {
                    old(self).control_started(now)
                } else {
                    old(self).control()
                },
                if r > 0 {
                    old(self).pins.with(stream, true)
                } else {
                    old(self).pins
                },
            ),
            final(self).valid(),
    {
        let count: usize = self.observed(now, stream, result, tail);
        collector.prefer_stdout = match stream {
            Stream::Stdout => false,
            Stream::Stderr => true,
        };
        if count != 0 && !tail {
            let retained: usize = self.reserve(now, stream, count);
            if retained != 0 {
                collector.set_writing(stream, true);
            }
            retained
        } else {
            0
        }
    }
}

/// What happens to the output of a session whose pipes and files have no fault.
pub enum CollectEvent {
    /// A read outside the tail gave so many bytes.
    Read { stream: Stream, count: nat },
    /// The file took so many bytes of an outstanding write.
    Wrote { stream: Stream, count: nat },
    /// A write returned after all its bytes had reached the file.
    Returned { stream: Stream },
    /// A read in the tail gave so many bytes.
    Drained { stream: Stream, count: nat },
    /// A read gave the end of the file.
    Ended { stream: Stream },
}

impl OutputFact {
    /// Whether a read outside the tail may give `count` bytes.
    pub open spec fn may_read(self, stream: Stream, count: int) -> bool {
        &&& self.first_stop is None
        &&& self.of(stream).collection == Collection::Reading
        &&& 0 < count <= self.limit - self.charged() + 1
    }

    /// Whether an event may happen now.
    pub open spec fn may_happen(self, event: CollectEvent) -> bool {
        match event {
            CollectEvent::Read { stream, count } => self.may_read(stream, count as int),
            CollectEvent::Wrote { stream, count } => count <= self.of(stream).reserved,
            CollectEvent::Returned { stream } => self.of(stream).reserved == 0,
            CollectEvent::Drained { count, .. } => self.first_stop is Some && self.tail_read + count
                <= TAIL_BYTES,
            CollectEvent::Ended { .. } => true,
        }
    }

    /// The facts after an event.
    pub open spec fn collected_by(self, event: CollectEvent) -> OutputFact {
        match event {
            CollectEvent::Read { stream, count } => self.admitted(stream, count as int),
            CollectEvent::Wrote { stream, count } => self.written(stream, count as int),
            CollectEvent::Returned { stream } => self.write_ended(stream, 0, None),
            CollectEvent::Drained { stream, count } => self.drained(stream, count as int),
            CollectEvent::Ended { stream } => self.ended(stream, Collection::Eof),
        }
    }
}

/// The facts after a run of events, from the beginning of a session.
pub open spec fn collected(limit: u64, events: Seq<CollectEvent>) -> OutputFact
    decreases events.len(),
{
    if events.len() == 0 {
        OutputFact::initial(limit)
    } else {
        collected(limit, events.drop_last()).collected_by(events.last())
    }
}

/// Whether each event of a run may happen when it does.
pub open spec fn may_be_collected(limit: u64, events: Seq<CollectEvent>) -> bool
    decreases events.len(),
{
    events.len() == 0 || may_be_collected(limit, events.drop_last()) && collected(
        limit,
        events.drop_last(),
    ).may_happen(events.last())
}

/// How many bytes of a stream were read outside the tail.
pub open spec fn bytes_read(events: Seq<CollectEvent>, stream: Stream) -> nat
    decreases events.len(),
{
    if events.len() == 0 {
        0
    } else {
        bytes_read(events.drop_last(), stream) + match events.last() {
            CollectEvent::Read { stream: read, count } => if read == stream {
                count
            } else {
                0
            },
            _ => 0,
        }
    }
}

/// Of output that keeps within the limit every byte is charged to its stream,
/// nothing is lost and nothing stops. Of output beyond it exactly as many bytes
/// are charged as the limit says, and exactly one byte more is read before the
/// tail. Once nothing is reserved any more, what is charged is retained.
pub proof fn output_is_kept_up_to_the_limit(limit: u64, events: Seq<CollectEvent>)
    requires
        limit <= MAX_LIMIT,
        may_be_collected(limit, events),
    ensures
        ({
            let facts = collected(limit, events);
            let stdout = bytes_read(events, Stream::Stdout);
            let stderr = bytes_read(events, Stream::Stderr);
            &&& facts.limit == limit
            &&& facts.within_limit()
            &&& facts.tail_read <= TAIL_BYTES
            &&& facts.first_stop is None <==> stdout + stderr <= limit
            &&& stdout + stderr <= limit ==> {
                &&& facts.stdout.retained + facts.stdout.reserved == stdout
                &&& facts.stderr.retained + facts.stderr.reserved == stderr
                &&& facts.stdout.discarded == 0 && facts.stderr.discarded == 0
                &&& facts.tail_read == 0
            }
            &&& stdout + stderr > limit ==> {
                &&& facts.first_stop == Some(StopReason::OutputLimit)
                &&& stdout + stderr == limit + 1
                &&& facts.charged() == limit
                &&& facts.stdout.retained + facts.stdout.reserved <= stdout
                &&& facts.stderr.retained + facts.stderr.reserved <= stderr
                &&& facts.stdout.discarded + facts.stderr.discarded == 1 + facts.tail_read
            }
            &&& facts.stdout.reserved == 0 && facts.stderr.reserved == 0
                ==> facts.stdout.retained + facts.stderr.retained == (if stdout + stderr <= limit {
                stdout + stderr
            } else {
                limit as nat
            })
        }),
    decreases events.len(),
{
    if events.len() > 0 {
        output_is_kept_up_to_the_limit(limit, events.drop_last());
    }
}

/// Reads are always of a positive size and of at most 4096 bytes. One that a
/// turn enables outside the tail is one that the limit leaves room for but for
/// one byte, and loses at most that byte; one in the tail stays within the
/// tail's cap.
pub proof fn reads_are_bounded(
    collector: Collector,
    policy: OutputFact,
    control: CancellationView,
    now: u128,
    count: int,
)
    requires
        policy.within_limit(),
        policy.tail_read <= TAIL_BYTES,
        collector.turn(policy, control, now) is Wait,
    ensures
        ({
            let wait = collector.turn(policy, control, now)->Wait_0;
            &&& 1 <= wait.read_size <= READ_SIZE
            &&& !wait.tail && (wait.stdout || wait.stderr) && 0 < count <= wait.read_size ==> count
                - policy.admissible(count) <= 1
            &&& wait.tail && 0 < count <= wait.read_size ==> policy.tail_read + count <= TAIL_BYTES
            &&& !wait.tail && wait.stdout && 0 < count <= wait.read_size ==> policy.may_read(
                Stream::Stdout,
                count,
            )
            &&& !wait.tail && wait.stderr && 0 < count <= wait.read_size ==> policy.may_read(
                Stream::Stderr,
                count,
            )
        }),
{
}

/// Nothing is read between the stop and the permanent absence of the group, nor
/// while a write is outstanding: output that a handler flushes in between stays
/// in its pipe.
pub proof fn stopped_reads_wait_for_absence(
    collector: Collector,
    policy: OutputFact,
    control: CancellationView,
    now: u128,
)
    requires
        policy.first_stop is Some,
        collector.tail_deadline is None,
        collector.turn(policy, control, now) is Wait,
        collector.turn(policy, control, now)->Wait_0.stdout || collector.turn(
            policy,
            control,
            now,
        )->Wait_0.stderr,
    ensures
        control.group_absent,
        !collector.writing(),
{
}

/// The tail never lasts longer than its own time or the operation's deadline,
/// and its end is fixed when it begins.
pub proof fn tail_is_clamped(
    collector: Collector,
    policy: OutputFact,
    control: CancellationView,
    now: u128,
)
    requires
        control.valid(),
        now <= MAX_CLOCK,
    ensures
        collector.tail_deadline is Some ==> collector.tailed(policy, control, now) == collector,
        collector.tail_deadline is None && collector.tailed(
            policy,
            control,
            now,
        ).tail_deadline is Some ==> {
            let end = collector.tailed(policy, control, now).tail_deadline->0;
            &&& end <= now + TAIL_NANOS
            &&& control.finish_deadline is Some ==> end <= control.finish_deadline->0
        },
{
}

/// A stream that a turn enables for reading stays admissible whatever the
/// workers and the replay reader do meanwhile: its own write is not outstanding,
/// or nothing more can be admitted.
pub proof fn enabled_reads_stay_admissible(
    policy: OutputFact,
    stream: Stream,
    other: Stream,
    count: int,
    amount: int,
    fault: StorageFault,
)
    requires
        policy.within_limit(),
        policy.admissible(count) == 0,
        count >= 0,
        0 <= amount <= policy.of(other).reserved,
    ensures
        policy.written(other, amount).admissible(count) == 0,
        policy.write_ended(other, amount, Some(fault)).admissible(count) == 0,
        policy.write_ended(other, 0, None).admissible(count) == 0,
        policy.faulted(other, fault).admissible(count) == 0,
{
}

/// The first reason to stop is never replaced.
pub proof fn first_stop_is_immutable(
    policy: OutputFact,
    stream: Stream,
    count: int,
    fault: StorageFault,
    reason: StopReason,
    cause: CollectionCause,
)
    requires
        policy.first_stop is Some,
    ensures
        policy.stopped_for(reason).first_stop == policy.first_stop,
        policy.faulted(stream, fault).first_stop == policy.first_stop,
        policy.written(stream, count).first_stop == policy.first_stop,
        policy.write_ended(stream, count, Some(fault)).first_stop == policy.first_stop,
        policy.admitted(stream, count).first_stop == policy.first_stop,
        policy.read_failed(stream).first_stop == policy.first_stop,
        policy.drained(stream, count).first_stop == policy.first_stop,
        policy.given_up(cause).first_stop == policy.first_stop,
{
}

/// Collection is done exactly if neither stream is read any more and every write
/// returned. It is given up only when the operation's time is over, when group
/// control ended without the group's absence, or when the tail used up its time or
/// its bytes; then exactly the streams that were still read are marked, with the
/// cause. In all other cases it waits.
pub proof fn collection_ends_for_a_cause<H: GroupSignal>(
    broker: &mut Broker<H>,
    collector: &mut Collector,
    now: u128,
    r: CollectStep,
)
    requires
        old(broker).valid(),
        old(broker).is_bounded(),
        now <= MAX_CLOCK,
        call_ensures(Broker::<H>::collect, (broker, collector, now), r),
    ensures
        ({
            let before = old(broker).session.meta.output->0;
            let after = final(broker).session.meta.output->0;
            let control = old(broker).cancellation->0;
            let writing = old(collector).stdout_writing || old(collector).stderr_writing;
            let over = control.finish_deadline is Some && now >= control.finish_deadline->0;
            let lost = control.result is Some && !control.group_absent && (before.first_stop
                is Some || control.finish_deadline is Some);
            &&& r is Done <==> before.stdout.collection !is Reading && before.stderr.collection
                !is Reading && !writing
            &&& r matches CollectStep::GaveUp(cause) ==> {
                &&& before.stdout.collection is Reading ==> after.stdout.collection
                    == Collection::Unconfirmed(cause)
                &&& before.stderr.collection is Reading ==> after.stderr.collection
                    == Collection::Unconfirmed(cause)
                &&& before.stdout.collection !is Reading ==> after.stdout == before.stdout
                &&& before.stderr.collection !is Reading ==> after.stderr == before.stderr
                &&& cause is StoragePending <==> over && before.io_inflight != 0
                &&& cause is OperationDeadline <==> over && before.io_inflight == 0
                &&& cause is GroupUnconfirmed <==> !over && lost
                &&& cause is TailTime ==> before.first_stop is Some
                    && final(collector).tail_deadline is Some
                    && now >= final(collector).tail_deadline->0
                &&& cause is TailBytes ==> before.first_stop is Some && before.tail_read == 262_144
                &&& cause !is OutputRead && cause !is PipeSetup
            }
            &&& r !is GaveUp ==> after == before
            &&& r !is Done && (over || lost) ==> r is GaveUp
            &&& r is Wait ==> !over && !lost
            &&& r !is Done && !over && !lost && before.first_stop is None ==> r is Wait
            &&& final(broker).cancellation->0.phase == control.phase
            &&& final(broker).pins == old(broker).pins
        }),
{
    assert(final(broker).cancellation->0@ == old(broker).cancellation->0@);
}

/// The tail begins exactly when the session is stopped, its group is gone and no
/// write is outstanding, and lasts 200 milliseconds, but never beyond the
/// operation's deadline. Its end is fixed when it begins.
pub proof fn tails_begin_after_the_group<H: GroupSignal>(
    broker: &mut Broker<H>,
    collector: &mut Collector,
    now: u128,
    r: CollectStep,
)
    requires
        old(broker).valid(),
        old(broker).is_bounded(),
        now <= MAX_CLOCK,
        call_ensures(Broker::<H>::collect, (broker, collector, now), r),
    ensures
        ({
            let policy = old(broker).session.meta.output->0;
            let control = old(broker).cancellation->0;
            let writing = old(collector).stdout_writing || old(collector).stderr_writing;
            &&& old(collector).tail_deadline is Some
                ==> final(collector).tail_deadline == old(collector).tail_deadline
            &&& old(collector).tail_deadline is None && final(collector).tail_deadline is Some ==> {
                let end = final(collector).tail_deadline->0;
                &&& policy.first_stop is Some
                &&& control.group_absent
                &&& !writing
                &&& end <= now + 200_000_000
                &&& control.finish_deadline matches Some(finish) ==> end <= finish && (end
                    == finish || end == now + 200_000_000)
            }
            &&& r is Wait && policy.first_stop is Some && control.group_absent && !writing
                ==> final(collector).tail_deadline is Some
            &&& final(collector).stdout_writing == old(collector).stdout_writing
            &&& final(collector).stderr_writing == old(collector).stderr_writing
            &&& final(collector).prefer_stdout == old(collector).prefer_stdout
        }),
{
}

/// What is waited for: before a stop every open stream whose write returned is
/// read, up to one byte more than the limit leaves room for; after a stop only the
/// tail is, within its cap. Reads have between 1 and 4096 bytes.
pub proof fn open_streams_are_read<H: GroupSignal>(
    broker: &mut Broker<H>,
    collector: &mut Collector,
    now: u128,
    r: CollectStep,
)
    requires
        old(broker).valid(),
        old(broker).is_bounded(),
        now <= MAX_CLOCK,
        call_ensures(Broker::<H>::collect, (broker, collector, now), r),
    ensures
        r matches CollectStep::Wait(wait) ==> {
            let policy = old(broker).session.meta.output->0;
            let control = old(broker).cancellation->0;
            let room = policy.limit - policy.stdout.retained - policy.stdout.reserved
                - policy.stderr.retained - policy.stderr.reserved;
            &&& 1 <= wait.read_size <= 4096
            &&& wait.tail <==> policy.first_stop is Some && final(collector).tail_deadline is Some
            &&& !wait.tail ==> wait.read_size <= room + 1 && (wait.read_size == 4096
                || wait.read_size == room + 1)
            &&& wait.tail ==> policy.tail_read + wait.read_size <= 262_144
            &&& policy.first_stop is None && policy.stdout.collection is Reading
                && !old(collector).stdout_writing ==> wait.stdout
            &&& policy.first_stop is None && policy.stderr.collection is Reading
                && !old(collector).stderr_writing ==> wait.stderr
            &&& wait.tail && policy.stdout.collection is Reading && !old(collector).stdout_writing
                ==> wait.stdout
            &&& wait.tail && policy.stderr.collection is Reading && !old(collector).stderr_writing
                ==> wait.stderr
            &&& wait.stdout ==> policy.stdout.collection is Reading
                && (!old(collector).stdout_writing || (room == 0 && policy.first_stop is None))
                && (policy.first_stop
                is None || wait.tail)
            &&& wait.stderr ==> policy.stderr.collection is Reading
                && (!old(collector).stderr_writing || (room == 0 && policy.first_stop is None))
                && (policy.first_stop
                is None || wait.tail)
            &&& final(collector).tail_deadline is Some
                ==> wait.deadline == final(collector).tail_deadline
            &&& final(collector).tail_deadline is None ==> wait.deadline == control.finish_deadline
        },
{
}

/// What a read gave is dealt with whole: outside the tail its bytes are admitted as
/// far as the limit allows, to be written, and the rest is lost; in the tail all
/// are lost. Only an end of file closes a stream. The other stream comes first
/// next, and a stream with bytes to write is marked as writing.
pub proof fn every_byte_read_is_kept_or_lost<H: GroupSignal>(
    broker: &mut Broker<H>,
    collector: &mut Collector,
    now: u128,
    stream: Stream,
    result: ReadResult,
    tail: bool,
    r: usize,
)
    requires
        old(broker).valid(),
        old(broker).is_bounded(),
        now <= MAX_CLOCK,
        result matches ReadResult::Bytes(count) ==> {
            &&& count > 0
            &&& old(broker).policy().of(stream).discarded + count <= u64::MAX
            &&& tail ==> old(broker).policy().tail_read + count <= TAIL_BYTES
            &&& !tail ==> !old(broker).pins.of(stream) || old(broker).policy().admissible(
                count as int,
            ) == 0
        },
        call_ensures(
            Broker::<H>::collect_read,
            (broker, collector, now, stream, result, tail),
            r,
        ),
    ensures
        ({
            let before = old(broker).session.meta.output->0;
            let after = final(broker).session.meta.output->0;
            let room = before.limit - before.stdout.retained - before.stdout.reserved
                - before.stderr.retained - before.stderr.reserved;
            let (own, own_after, other, other_after) = match stream {
                Stream::Stdout => (before.stdout, after.stdout, before.stderr, after.stderr),
                Stream::Stderr => (before.stderr, after.stderr, before.stdout, after.stdout),
            };
            let (closed, closed_after) = match stream {
                Stream::Stdout => (
                    old(broker).session.meta.stdout_closed,
                    final(broker).session.meta.stdout_closed,
                ),
                Stream::Stderr => (
                    old(broker).session.meta.stderr_closed,
                    final(broker).session.meta.stderr_closed,
                ),
            };
            &&& other_after == other
            &&& own_after.retained == own.retained
            &&& own_after.reserved == own.reserved + r
            &&& result matches ReadResult::Bytes(count) ==> {
                &&& own_after.reserved + own_after.discarded == own.reserved + own.discarded + count
                &&& tail ==> r == 0 && after.tail_read == before.tail_read + count
                &&& !tail ==> after.tail_read == before.tail_read
                &&& !tail && before.first_stop is None && count <= room ==> r == count
                    && after.first_stop is None
                &&& !tail && before.first_stop is None && count > room ==> r == room
                    && after.first_stop == Some(StopReason::OutputLimit)
                &&& !tail && before.first_stop is Some ==> r == 0
                &&& !tail && r < count ==> final(broker).cancellation->0.phase !is Ready
                &&& closed_after == closed
                &&& own_after.collection == own.collection
            }
            &&& result is Eof ==> r == 0 && closed_after && own_after.collection is Eof
                && after.first_stop == before.first_stop
            &&& result is Failed ==> r == 0 && closed_after == closed && own_after.collection
                == Collection::Unconfirmed(CollectionCause::OutputRead) && after.first_stop is Some
                && final(broker).cancellation->0.phase !is Ready
            &&& final(collector).prefer_stdout <==> stream is Stderr
            &&& r > 0 ==> (match stream {
                Stream::Stdout => final(collector).stdout_writing && final(collector).stderr_writing == old(collector).stderr_writing,
                Stream::Stderr => final(collector).stderr_writing && final(collector).stdout_writing == old(collector).stdout_writing,
            })
            &&& r == 0 ==> final(collector).stdout_writing == old(collector).stdout_writing
                && final(collector).stderr_writing == old(collector).stderr_writing
            &&& final(collector).tail_deadline == old(collector).tail_deadline
        }),
{
    assert(old(broker).read_starts(result, tail) ==> final(broker).cancellation->0@ == old(broker).control_started(now));
}

/// A write worker that hands its file back frees its stream. One that was lost with
/// it is a storage fault, which stops the session.
pub proof fn lost_workers_stop_the_session<H: GroupSignal>(
    broker: &mut Broker<H>,
    collector: &mut Collector,
    now: u128,
    stream: Stream,
    lost: bool,
)
    requires
        old(broker).valid(),
        old(broker).is_bounded(),
        now <= MAX_CLOCK,
        call_ensures(
            Broker::<H>::collect_written,
            (broker, collector, now, stream, lost),
            (),
        ),
    ensures
        ({
            let before = old(broker).session.meta.output->0;
            let after = final(broker).session.meta.output->0;
            &&& stream is Stdout ==> !final(collector).stdout_writing
                && final(collector).stderr_writing == old(collector).stderr_writing
            &&& stream is Stderr ==> !final(collector).stderr_writing
                && final(collector).stdout_writing == old(collector).stdout_writing
            &&& final(collector).tail_deadline == old(collector).tail_deadline
            &&& !lost ==> after == before
                && final(broker).cancellation->0.phase == old(broker).cancellation->0.phase
            &&& lost ==> {
                let fact = match stream {
                    Stream::Stdout => after.stdout,
                    Stream::Stderr => after.stderr,
                };
                &&& after.first_stop is Some
                &&& before.first_stop is None ==> after.first_stop == Some(StopReason::StorageFault)
                &&& fact.storage_fault is Some
                &&& !fact.prefix_complete
                &&& final(broker).cancellation->0.phase !is Ready
            }
            &&& final(broker).pins == old(broker).pins
        }),
{
    assert(lost ==> final(broker).cancellation->0@ == old(broker).control_started(now));
    assert(!lost ==> final(broker).cancellation->0@ == old(broker).cancellation->0@);
}

/// A pipe that could not be set up is never taken for one that ended: its stream
/// is unconfirmed, the session is stopped, and its cancellation has begun.
pub proof fn missing_pipes_stop_the_session<H: GroupSignal>(
    broker: &mut Broker<H>,
    now: u128,
    stream: Stream,
)
    requires
        old(broker).valid(),
        old(broker).is_bounded(),
        now <= MAX_CLOCK,
        call_ensures(Broker::<H>::pipe_missing, (broker, now, stream), ()),
    ensures
        ({
            let before = old(broker).session.meta.output->0;
            let after = final(broker).session.meta.output->0;
            let (own_after, other, other_after) = match stream {
                Stream::Stdout => (after.stdout, before.stderr, after.stderr),
                Stream::Stderr => (after.stderr, before.stdout, after.stdout),
            };
            &&& own_after.collection == Collection::Unconfirmed(CollectionCause::PipeSetup)
            &&& other_after == other
            &&& before.first_stop is None ==> after.first_stop == Some(StopReason::PipeSetupFault)
            &&& before.first_stop is Some ==> after.first_stop == before.first_stop
            &&& final(broker).cancellation->0.phase !is Ready
            &&& final(broker).session.meta.stdout_closed == old(broker).session.meta.stdout_closed
            &&& final(broker).session.meta.stderr_closed == old(broker).session.meta.stderr_closed
        }),
{
    assert(final(broker).cancellation->0@ == old(broker).control_started(now));
}

/// A collector begins with no write outstanding, no tail, and with stdout.
pub proof fn collectors_begin_idle(r: Collector)
    requires
        call_ensures(Collector::new, (), r),
    ensures
        !r.stdout_writing && !r.stderr_writing,
        r.tail_deadline is None,
        r.prefer_stdout,
{
}

/// A collector that is done, or gives up for the operation or its group, begins no
/// tail any more; and none waits once the tail's time or its bytes are used up.
pub proof fn tails_are_not_outlived<H: GroupSignal>(
    broker: &mut Broker<H>,
    collector: &mut Collector,
    now: u128,
    r: CollectStep,
)
    requires
        old(broker).valid(),
        old(broker).is_bounded(),
        now <= MAX_CLOCK,
        call_ensures(Broker::<H>::collect, (broker, collector, now), r),
    ensures
        r is Done ==> *final(collector) == *old(collector),
        r matches CollectStep::GaveUp(cause) ==> (cause is StoragePending || cause
            is OperationDeadline || cause is GroupUnconfirmed ==> *final(collector) == *old(collector)),
        r is Wait && old(broker).session.meta.output->0.first_stop is Some && final(collector).tail_deadline is Some ==> now < final(collector).tail_deadline->0 && old(broker).session.meta.output->0.tail_read < 262_144,
{
}

} // verus!
