//! Facts about the finite output that a session retains.
use vstd::prelude::*;

use crate::protocol::{ExitResult, ProtocolError};

verus! {

/// Advertised by an opted-in session whose group control was verified.
pub const CAPABILITY: &'static str = "finite-output-v1";

/// Names the attachment form that carries output facts.
pub const ATTACHMENT: &'static str = "framed-output-v1";

/// Most bytes taken from an output pipe in one read.
pub const READ_SIZE: usize = 4096;

/// Most bytes discarded by the tail drain of one session.
pub const TAIL_BYTES: u64 = 262_144;

/// Longest time given to the tail drain, in milliseconds.
pub const TAIL_MILLIS: u64 = 200;

/// Largest accepted limit: the largest file offset.
pub const MAX_LIMIT: u64 = 9_223_372_036_854_775_807;

/// Most filesystem operations that a session can have outstanding: one write
/// for each stream and one replay read.
pub const MAX_INFLIGHT: u32 = 3;

/// Why a session stopped admitting output.
#[derive(Clone, Copy, Debug, PartialEq, Eq, Structural)]
pub enum StopReason {
    OutputLimit,
    StorageFault,
    OutputReadFault,
    PipeSetupFault,
}

/// What went wrong while output was stored or read back.
#[derive(Clone, Copy, Debug, PartialEq, Eq, Structural)]
pub enum StorageFault {
    Write,
    PartialWrite,
    Flush,
    ReplayOpen,
    ReplayRead,
    WorkerLost,
}

/// Why collection ended without an observed end of file.
#[derive(Clone, Copy, Debug, PartialEq, Eq, Structural)]
pub enum CollectionCause {
    TailBytes,
    TailTime,
    OperationDeadline,
    GroupUnconfirmed,
    StoragePending,
    OutputRead,
    PipeSetup,
}

/// How far collection of one stream has come.
#[derive(Clone, Copy, Debug, PartialEq, Eq, Structural)]
pub enum Collection {
    Reading,
    Eof,
    Unconfirmed(CollectionCause),
}

/// Accounting for one output stream.
#[derive(Clone, Copy, Debug, PartialEq, Eq, Structural)]
pub struct StreamFact {
    pub retained: u64,
    pub reserved: u64,
    pub discarded: u64,
    pub storage_fault: Option<StorageFault>,
    pub collection: Collection,
    pub prefix_complete: bool,
}

impl StreamFact {
    /// A stream from which nothing has been read.
    pub open spec fn initial() -> StreamFact {
        StreamFact {
            retained: 0,
            reserved: 0,
            discarded: 0,
            storage_fault: None,
            collection: Collection::Reading,
            prefix_complete: true,
        }
    }

    /// Whether the stream may claim a complete prefix while `io` operations
    /// are outstanding in its session.
    pub open spec fn may_be_complete(self, io: u32) -> bool {
        &&& self.collection == Collection::Eof
        &&& self.reserved == 0
        &&& io == 0
        &&& self.discarded == 0
        &&& self.storage_fault is None
    }
}

impl Default for StreamFact {
    fn default() -> (r: Self)
        ensures
            r == StreamFact::initial(),
    {
        StreamFact {
            retained: 0,
            reserved: 0,
            discarded: 0,
            storage_fault: None,
            collection: Collection::Reading,
            prefix_complete: true,
        }
    }
}

/// Why control over the original process group was lost.
#[derive(Clone, Copy, Debug, PartialEq, Eq, Structural)]
pub enum ControlFault {
    Unavailable,
    Wait,
    Signal,
    Deadline,
}

/// State of the cancellation operation over the original process group.
#[derive(Clone, Copy, Debug, PartialEq, Eq, Structural)]
pub enum GroupControl {
    Ready,
    Running,
    Settled,
    Unconfirmed(ControlFault),
}

/// What a session knows about its finite output.
#[derive(Clone, Copy, Debug, PartialEq, Eq, Structural)]
pub struct OutputFact {
    pub limit: u64,
    pub first_stop: Option<StopReason>,
    pub stdout: StreamFact,
    pub stderr: StreamFact,
    pub io_inflight: u32,
    pub sealed: bool,
    pub tail_read: u64,
    pub leader_exit: Option<ExitResult>,
    pub original_group_absent: bool,
    pub group_control: GroupControl,
}

impl OutputFact {
    /// Bytes charged against the limit: kept or reserved, on both streams.
    pub open spec fn charged(self) -> int {
        self.stdout.retained + self.stderr.retained + self.stdout.reserved + self.stderr.reserved
    }

    /// The accounting invariant: nothing is charged beyond the limit.
    pub open spec fn within_limit(self) -> bool {
        self.charged() <= self.limit
    }

    /// Whether collection of both streams has ended, confirmed or not.
    pub open spec fn is_collected(self) -> bool {
        self.stdout.collection != Collection::Reading && self.stderr.collection
            != Collection::Reading
    }

    /// Whether everything that the command wrote is retained.
    pub open spec fn is_complete(self) -> bool {
        &&& self.first_stop is None
        &&& self.io_inflight == 0
        &&& self.stdout.prefix_complete
        &&& self.stderr.prefix_complete
        &&& self.stdout.collection == Collection::Eof
        &&& self.stderr.collection == Collection::Eof
    }

    /// Whether the numbers are in range.
    pub open spec fn in_range(self) -> bool {
        &&& self.limit <= MAX_LIMIT
        &&& self.within_limit()
        &&& self.tail_read <= TAIL_BYTES
        &&& self.io_inflight <= MAX_INFLIGHT
    }

    /// Whether no stream claims completeness that it cannot have.
    pub open spec fn honest(self) -> bool {
        &&& self.stdout.prefix_complete ==> self.stdout.may_be_complete(self.io_inflight)
        &&& self.stderr.prefix_complete ==> self.stderr.may_be_complete(self.io_inflight)
    }

    /// Whether the fact can close a replay: collection and storage are settled.
    pub open spec fn ends_replay(self) -> bool {
        &&& self.is_collected()
        &&& self.sealed
        &&& self.io_inflight == 0
        &&& self.stdout.reserved == 0
        &&& self.stderr.reserved == 0
    }

    /// What `validate` answers.
    pub open spec fn verdict(self, terminal: bool) -> Result<(), ProtocolError> {
        if self.charged() > u64::MAX {
            Err(ProtocolError::FactAccounting)
        } else if !self.in_range() {
            Err(ProtocolError::FactRange)
        } else if self.leader_exit is Some && !self.leader_exit->0.is_actual() {
            Err(ProtocolError::ExitShape)
        } else if !self.honest() {
            Err(ProtocolError::FactCompleteness)
        } else if terminal && !self.ends_replay() {
            Err(ProtocolError::FactUnsettled)
        } else {
            Ok(())
        }
    }

    /// The frontend status that goes with the fact.
    pub open spec fn status(self) -> int {
        let code = match self.leader_exit {
            Some(exit) => exit.status(),
            None => 1,
        };
        if code == 0 && !self.is_complete() {
            1
        } else {
            code
        }
    }

    /// The fact of a session that has collected nothing yet.
    pub open spec fn initial(limit: u64) -> OutputFact {
        OutputFact {
            limit,
            first_stop: None,
            stdout: StreamFact::initial(),
            stderr: StreamFact::initial(),
            io_inflight: 0,
            sealed: false,
            tail_read: 0,
            leader_exit: None,
            original_group_absent: false,
            group_control: GroupControl::Ready,
        }
    }

    pub fn new(limit: u64) -> (r: Self)
        ensures
            r == OutputFact::initial(limit),
            r.within_limit(),
    {
        OutputFact {
            limit,
            first_stop: None,
            stdout: StreamFact::default(),
            stderr: StreamFact::default(),
            io_inflight: 0,
            sealed: false,
            tail_read: 0,
            leader_exit: None,
            original_group_absent: false,
            group_control: GroupControl::Ready,
        }
    }

    /// Bytes that can still be admitted.
    pub fn available(&self) -> (r: u64)
        requires
            self.within_limit(),
        ensures
            r == self.limit - self.charged(),
    {
        self.limit - (self.stdout.retained + self.stderr.retained + self.stdout.reserved
            + self.stderr.reserved)
    }

    pub fn collected(&self) -> (r: bool)
        ensures
            r == self.is_collected(),
    {
        self.stdout.collection != Collection::Reading && self.stderr.collection
            != Collection::Reading
    }

    pub fn complete(&self) -> (r: bool)
        ensures
            r == self.is_complete(),
    {
        self.first_stop.is_none() && self.io_inflight == 0 && self.stdout.prefix_complete
            && self.stderr.prefix_complete && self.stdout.collection == Collection::Eof
            && self.stderr.collection == Collection::Eof
    }

    fn charged_total(&self) -> (r: Option<u64>)
        ensures
            match r {
                Some(total) => total == self.charged(),
                None => self.charged() > u64::MAX,
            },
    {
        match self.stdout.retained.checked_add(self.stderr.retained) {
            Some(a) => match a.checked_add(self.stdout.reserved) {
                Some(b) => b.checked_add(self.stderr.reserved),
                None => None,
            },
            None => None,
        }
    }

    fn stream_honest(stream: &StreamFact, io_inflight: u32) -> (r: bool)
        ensures
            r == (stream.prefix_complete ==> stream.may_be_complete(io_inflight)),
    {
        !(stream.prefix_complete && (stream.collection != Collection::Eof || stream.reserved != 0
            || io_inflight != 0 || stream.discarded != 0 || stream.storage_fault.is_some()))
    }

    /// Checks a received fact. `terminal` asks that it can end a replay.
    pub fn validate(&self, terminal: bool) -> (r: Result<(), ProtocolError>)
        ensures
            r == self.verdict(terminal),
    {
        let charged: u64 = match self.charged_total() {
            Some(total) => total,
            None => {
                return Err(ProtocolError::FactAccounting);
            },
        };
        if self.limit > MAX_LIMIT || charged > self.limit || self.tail_read > TAIL_BYTES
            || self.io_inflight > MAX_INFLIGHT {
            return Err(ProtocolError::FactRange);
        }
        if let Some(exit) = &self.leader_exit {
            if let Err(error) = exit.validate() {
                return Err(error);
            }
        }
        if !OutputFact::stream_honest(&self.stdout, self.io_inflight)
            || !OutputFact::stream_honest(&self.stderr, self.io_inflight) {
            return Err(ProtocolError::FactCompleteness);
        }
        if terminal && (!self.collected() || !self.sealed || self.io_inflight != 0
            || self.stdout.reserved != 0 || self.stderr.reserved != 0) {
            return Err(ProtocolError::FactUnsettled);
        }
        Ok(())
    }

    /// The frontend's exit status: the command's own, except that a zero with
    /// incomplete output becomes one.
    pub fn process_code(&self) -> (r: i32)
        requires
            self.leader_exit is Some ==> self.leader_exit->0.has_status(),
        ensures
            r == self.status(),
    {
        let code: i32 = match &self.leader_exit {
            Some(exit) => exit.process_code(),
            None => 1,
        };
        if code == 0 && !self.complete() {
            1
        } else {
            code
        }
    }
}

/// A fact that passes validation charges nothing beyond its limit, and a
/// complete stream in it has no outstanding work, loss or fault.
pub proof fn valid_fact_is_honest(fact: OutputFact, terminal: bool)
    requires
        fact.verdict(terminal) is Ok,
    ensures
        fact.within_limit(),
        fact.is_complete() ==> fact.stdout.discarded == 0 && fact.stderr.discarded == 0
            && fact.stdout.storage_fault is None && fact.stderr.storage_fault is None,
        terminal ==> fact.is_collected() && fact.io_inflight == 0,
{
}

/// A nonzero command status is never changed; a zero status is reported only
/// for complete output.
pub proof fn status_never_hides_loss(fact: OutputFact)
    requires
        fact.leader_exit is Some,
        fact.leader_exit->0.is_actual(),
    ensures
        fact.leader_exit->0.status() != 0 ==> fact.status() == fact.leader_exit->0.status(),
        fact.status() == 0 ==> fact.is_complete() && fact.leader_exit->0.code == Some(0i32),
{
}

/// A fact is accepted exactly if it charges nothing beyond its limit, its numbers
/// are possible, and no stream claims to be complete that has work outstanding,
/// lost a byte or met a fault. To end a replay nothing may be open either.
pub proof fn accepted_facts_add_up(fact: OutputFact, terminal: bool, r: Result<(), ProtocolError>)
    requires
        call_ensures(OutputFact::validate, (&fact, terminal), r),
    ensures
        ({
            let charged = fact.stdout.retained + fact.stdout.reserved + fact.stderr.retained
                + fact.stderr.reserved;
            let exit_possible = match fact.leader_exit {
                None => true,
                Some(exit) => (exit.signal is None && exit.code is Some && 0 <= exit.code->0 <= 255)
                    || (exit.code is None && exit.signal is Some && 1 <= exit.signal->0 <= 127),
            };
            let stdout_honest = !fact.stdout.prefix_complete || (fact.stdout.collection is Eof
                && fact.stdout.reserved == 0 && fact.stdout.discarded == 0
                && fact.stdout.storage_fault is None && fact.io_inflight == 0);
            let stderr_honest = !fact.stderr.prefix_complete || (fact.stderr.collection is Eof
                && fact.stderr.reserved == 0 && fact.stderr.discarded == 0
                && fact.stderr.storage_fault is None && fact.io_inflight == 0);
            let settled = fact.sealed && fact.io_inflight == 0 && fact.stdout.reserved == 0
                && fact.stderr.reserved == 0 && fact.stdout.collection !is Reading
                && fact.stderr.collection !is Reading;
            &&& r is Ok <==> charged <= fact.limit && fact.limit <= 0x7fff_ffff_ffff_ffff
                && fact.tail_read <= 262_144 && fact.io_inflight <= 3 && exit_possible
                && stdout_honest && stderr_honest && (terminal ==> settled)
            &&& charged > u64::MAX ==> r->Err_0 is FactAccounting
            &&& r is Err && r->Err_0 is FactUnsettled ==> terminal && !settled
        }),
{
}

/// The status of a session is its command's own, except that no zero is told of
/// output that is not complete; without an exit it is one.
pub proof fn statuses_do_not_hide_loss(fact: OutputFact, r: i32)
    requires
        fact.leader_exit is Some ==> fact.leader_exit->0.is_actual(),
        call_ensures(OutputFact::process_code, (&fact,), r),
    ensures
        fact.leader_exit is None ==> r == 1,
        fact.leader_exit matches Some(exit) ==> {
            &&& exit.code is None ==> r == 128 + exit.signal->0
            &&& exit.code is Some && exit.code->0 != 0 ==> r == exit.code->0
            &&& exit.code == Some(0i32) ==> (r == 0 || r == 1)
            &&& r == 0 <==> exit.code == Some(0i32) && fact.first_stop is None && fact.io_inflight
                == 0 && fact.stdout.prefix_complete && fact.stderr.prefix_complete
                && fact.stdout.collection is Eof && fact.stderr.collection is Eof
        },
{
}

/// What is available is what the limit leaves beside all that is kept or
/// reserved: charging it uses the limit up, and charging a byte more exceeds it.
pub proof fn what_is_available_uses_the_limit_up(fact: OutputFact, r: u64)
    requires
        fact.within_limit(),
        call_ensures(OutputFact::available, (&fact,), r),
    ensures
        fact.stdout.retained + fact.stdout.reserved + fact.stderr.retained + fact.stderr.reserved
            + r == fact.limit,
{
}

/// Output is collected once neither stream is read any more, and complete only if
/// both gave their end, nothing stopped and nothing is outstanding.
pub proof fn complete_output_is_collected(fact: OutputFact, collected: bool, complete: bool)
    requires
        call_ensures(OutputFact::collected, (&fact,), collected),
        call_ensures(OutputFact::complete, (&fact,), complete),
    ensures
        collected <==> fact.stdout.collection !is Reading && fact.stderr.collection !is Reading,
        complete ==> collected && fact.first_stop is None && fact.io_inflight == 0
            && fact.stdout.collection is Eof && fact.stderr.collection is Eof,
        collected && fact.first_stop is None && fact.io_inflight == 0 && fact.stdout.prefix_complete
            && fact.stderr.prefix_complete && fact.stdout.collection is Eof
            && fact.stderr.collection is Eof ==> complete,
        complete ==> fact.stdout.prefix_complete && fact.stderr.prefix_complete,
{
}

/// Facts begin with nothing collected, lost or stopped, under their limit.
pub proof fn facts_begin_empty(limit: u64, r: OutputFact)
    requires
        call_ensures(OutputFact::new, (limit,), r),
    ensures
        r.limit == limit,
        r.first_stop is None,
        r.stdout.retained == 0 && r.stdout.reserved == 0 && r.stdout.discarded == 0,
        r.stderr.retained == 0 && r.stderr.reserved == 0 && r.stderr.discarded == 0,
        r.stdout.collection is Reading && r.stderr.collection is Reading,
        r.stdout.storage_fault is None && r.stderr.storage_fault is None,
        r.stdout.prefix_complete && r.stderr.prefix_complete,
        r.io_inflight == 0 && r.tail_read == 0 && !r.sealed,
        r.leader_exit is None && !r.original_group_absent,
        r.group_control is Ready,
{
}

/// A fact is refused for what is wrong with it: numbers that do not add up or are
/// out of range first, then its exit, then completeness that it cannot have, and
/// last, where it should close a replay, what is not settled.
pub proof fn facts_are_refused_for_their_fault(
    fact: OutputFact,
    terminal: bool,
    r: Result<(), ProtocolError>,
    s: Result<(), ProtocolError>,
)
    requires
        call_ensures(OutputFact::validate, (&fact, terminal), r),
        call_ensures(OutputFact::validate, (&fact, false), s),
    ensures
        ({
            let charged = fact.stdout.retained + fact.stdout.reserved + fact.stderr.retained
                + fact.stderr.reserved;
            &&& charged > u64::MAX <==> r == Err::<(), ProtocolError>(ProtocolError::FactAccounting)
            &&& charged <= u64::MAX && (charged > fact.limit || fact.limit
                > 9_223_372_036_854_775_807) ==> r == Err::<(), ProtocolError>(
                ProtocolError::FactRange,
            )
            &&& s is Err ==> r == s
            &&& s is Ok && r is Err ==> terminal && r == Err::<(), ProtocolError>(
                ProtocolError::FactUnsettled,
            )
            &&& s is Ok && terminal ==> (r is Ok <==> fact.sealed && fact.io_inflight == 0
                && fact.stdout.reserved == 0 && fact.stderr.reserved == 0
                && fact.stdout.collection !is Reading && fact.stderr.collection !is Reading)
            &&& r == Err::<(), ProtocolError>(ProtocolError::ExitShape) ==> fact.leader_exit is Some
            &&& r == Err::<(), ProtocolError>(ProtocolError::FactCompleteness)
                ==> fact.stdout.prefix_complete || fact.stderr.prefix_complete
            &&& r matches Err(error) ==> error is FactAccounting || error is FactRange || error
                is ExitShape || error is FactCompleteness || error is FactUnsettled
        }),
{
}

} // verus!
