//! Sending the retained prefix of a bounded session: one replay read at a time,
//! facts whenever they change, and one end.
use vstd::prelude::*;

use crate::broker::sender::{Buffers, Receipts};
use crate::broker::{Broker, IoPins, Stream, CHUNK_SIZE, MAX_CLOCK};
use crate::group_pidfd::GroupSignal;
use crate::output::{OutputFact, StorageFault};
use crate::protocol::FrameView;

verus! {

/// How many bytes one read takes of a buffer file between two positions.
pub fn read_length(offset: u64, end: u64) -> (r: usize)
    requires
        offset <= end,
    ensures
        r == (if end - offset <= CHUNK_SIZE {
            end - offset
        } else {
            CHUNK_SIZE as int
        }),
{
    let count: u64 = end - offset;
    if count <= CHUNK_SIZE as u64 {
        count as usize
    } else {
        CHUNK_SIZE
    }
}

/// The diagnostic for a buffer file that is shorter than it should be.
pub open spec fn short_buffer_text() -> Seq<char> {
    "buffer file ended before its recorded position"@
}

/// Checks what a read of a buffer file gave: no byte at all means that the file
/// is shorter than its recorded end.
pub fn check_read(data: Vec<u8>) -> (r: Result<Vec<u8>, String>)
    ensures
        match r {
            Ok(kept) => data@.len() > 0 && kept == data,
            Err(error) => data@.len() == 0 && error@ == short_buffer_text(),
        },
{
    if data.len() == 0 {
        Err("buffer file ended before its recorded position".to_owned())
    } else {
        Ok(data)
    }
}

impl IoPins {
    pub open spec fn with_replay(self, held: bool) -> IoPins {
        IoPins { replay: held, ..self }
    }
}

impl OutputFact {
    pub open spec fn with_inflight(self, inflight: int) -> OutputFact {
        OutputFact { io_inflight: inflight as u32, ..self }
    }
}

impl<H: GroupSignal> Broker<H> {
    /// Begins the one replay read that a session may have outstanding. `false`
    /// means that another one has not returned; then nothing changes.
    pub fn replay_begin(&mut self) -> (r: bool)
        requires
            old(self).valid(),
            old(self).is_bounded(),
        ensures
            r == !old(self).pins.replay,
            r ==> final(self).became(
                *old(self),
                old(self).session.meta.with_output(
                    old(self).policy().with_inflight(old(self).policy().io_inflight + 1),
                ),
                old(self).control(),
                old(self).pins.with_replay(true),
            ),
            !r ==> *final(self) == *old(self),
            final(self).valid(),
    {
        if self.pins.replay {
            return false;
        }
        if let Some(policy) = self.session.meta.output {
            let mut p = policy;
            p.io_inflight = p.io_inflight + 1;
            self.session.meta.output = Some(p);
            self.pins.replay = true;
        }
        true
    }

    /// The replay read returned, with its fault if it had one. The recorded end
    /// of the stream stays what it is.
    pub fn replay_finished(&mut self, now: u128, stream: Stream, fault: Option<StorageFault>)
        requires
            old(self).valid(),
            old(self).is_bounded(),
            old(self).pins.replay,
            now <= MAX_CLOCK,
        ensures
            ({
                let noted = match fault {
                    Some(fault) => old(self).policy().faulted(stream, fault),
                    None => old(self).policy(),
                };
                final(self).became(
                    *old(self),
                    old(self).session.meta.with_output(noted.with_inflight(noted.io_inflight - 1)),
                    if fault is Some {
                        old(self).control_started(now)
                    } else {
                        old(self).control()
                    },
                    old(self).pins.with_replay(false),
                )
            }),
            final(self).valid(),
    {
        if let Some(fault) = fault {
            self.storage_fault(now, stream, fault);
        }
        if let Some(policy) = self.session.meta.output {
            let mut p = policy;
            p.io_inflight = p.io_inflight - 1;
            self.session.meta.output = Some(p);
            self.pins.replay = false;
        }
    }
}

/// The diagnostic for a replay that failed.
pub open spec fn replay_fault_text(fault: StorageFault) -> Seq<char> {
    match fault {
        StorageFault::ReplayOpen => "bounded replay fault: ReplayOpen; session retained"@,
        _ => "bounded replay fault: ReplayRead; session retained"@,
    }
}

/// The diagnostic for a replay that failed to open its file or to read it.
pub fn replay_fault_message(fault: StorageFault) -> (r: String)
    ensures
        r@ == replay_fault_text(fault),
{
    match fault {
        StorageFault::ReplayOpen => "bounded replay fault: ReplayOpen; session retained".to_owned(),
        _ => "bounded replay fault: ReplayRead; session retained".to_owned(),
    }
}

/// The sending side of a bounded attachment.
#[derive(Clone, Copy, Debug, PartialEq, Eq, Structural)]
pub struct BoundedSender {
    pub generation: u64,
    pub stdout: u64,
    pub stderr: u64,
    pub prefer_stdout: bool,
    pub last: Option<OutputFact>,
}

/// What comes after the facts and the receipt of a turn.
#[derive(Clone, Copy, Debug, PartialEq, Eq, Structural)]
pub enum BoundedNext {
    /// Read the stream from `offset` towards `end`.
    Replay { stream: Stream, offset: u64, end: u64 },
    /// Send the fact as the end of the replay, and stop.
    End(OutputFact),
    /// Wait for a change or a receipt.
    Wait,
}

/// What a turn sends: the facts if they changed, then a receipt if there is
/// one, then what comes next.
#[derive(Clone, Copy, Debug, PartialEq, Eq, Structural)]
pub struct BoundedTurn {
    pub state: Option<OutputFact>,
    pub receipt: Option<u64>,
    pub next: BoundedNext,
}

impl BoundedSender {
    pub open spec fn position(self, stream: Stream) -> u64 {
        match stream {
            Stream::Stdout => self.stdout,
            Stream::Stderr => self.stderr,
        }
    }

    /// Nothing was sent beyond what is retained.
    pub open spec fn within(self, fact: OutputFact) -> bool {
        self.stdout <= fact.stdout.retained && self.stderr <= fact.stderr.retained
    }

    /// The stream whose turn it is to be sent, if one has something to send.
    pub open spec fn ready(self, fact: OutputFact) -> Option<Stream> {
        if self.stdout < fact.stdout.retained && (self.prefer_stdout || self.stderr
            == fact.stderr.retained) {
            Some(Stream::Stdout)
        } else if self.stderr < fact.stderr.retained {
            Some(Stream::Stderr)
        } else {
            None
        }
    }

    /// Whether the prefix is final: collection and storage are settled, the
    /// command's exit is known or will never be, and a stopped session's group
    /// is gone or was given up.
    pub open spec fn final_fact(fact: OutputFact, cancel_finished: bool) -> bool {
        &&& fact.is_collected()
        &&& fact.io_inflight == 0
        &&& fact.leader_exit is Some || cancel_finished
        &&& fact.first_stop is None || fact.original_group_absent || cancel_finished
    }

    /// What comes after the facts and the receipt.
    pub open spec fn next(self, fact: OutputFact, cancel_finished: bool) -> BoundedNext {
        match self.ready(fact) {
            Some(stream) => BoundedNext::Replay {
                stream,
                offset: self.position(stream),
                end: fact.of(stream).retained,
            },
            None => if BoundedSender::final_fact(fact, cancel_finished) {
                BoundedNext::End(fact)
            } else {
                BoundedNext::Wait
            },
        }
    }

    pub fn new(generation: u64, stdout: u64, stderr: u64) -> (r: BoundedSender)
        ensures
            r == (BoundedSender { generation, stdout, stderr, prefer_stdout: true, last: None }),
    {
        BoundedSender { generation, stdout, stderr, prefer_stdout: true, last: None }
    }

    /// One turn. Nothing is sent by an attachment that lost the session.
    pub fn turn<H: GroupSignal>(&mut self, broker: &Broker<H>, receipts: &mut Receipts) -> (r: Option<
        BoundedTurn,
    >)
        requires
            broker.valid(),
            broker.is_bounded(),
            old(self).within(broker.policy()),
        ensures
            r is Some <==> broker.session.attachment.holds(old(self).generation),
            match r {
                None => *final(self) == *old(self) && *final(receipts) == *old(receipts),
                Some(turn) => {
                    let fact = broker.policy().told(broker.session.meta.status, broker.control());
                    &&& turn.state == (if old(self).last == Some(fact) {
                        None
                    } else {
                        Some(fact)
                    })
                    &&& turn.receipt == old(receipts).pending
                    &&& final(receipts).pending is None
                    &&& turn.next == old(self).next(fact, broker.control().result is Some)
                    &&& *final(self) == (BoundedSender { last: Some(fact), ..*old(self) })
                    &&& turn.state is Some ==> turn.state->0.verdict(false) is Ok
                    &&& turn.next matches BoundedNext::End(end) ==> end.verdict(true) is Ok
                },
            },
    {
        if !broker.session.is_current_attachment(self.generation) {
            return None;
        }
        let fact = match broker.fact() {
            Some(fact) => fact,
            None => {
                return None;
            },
        };
        proof {
            crate::broker::bounds::told_facts_are_valid(
                broker.policy(),
                broker.pins,
                broker.session.meta.status,
                broker.control(),
            );
        }
        let unchanged = match &self.last {
            Some(last) => *last == fact,
            None => false,
        };
        let state = if unchanged {
            None
        } else {
            Some(fact)
        };
        self.last = Some(fact);
        let cancel_finished = match &broker.cancellation {
            Some(cancellation) => cancellation.finished(),
            None => false,
        };
        let next = if self.stdout < fact.stdout.retained && (self.prefer_stdout || self.stderr
            == fact.stderr.retained) {
            BoundedNext::Replay {
                stream: Stream::Stdout,
                offset: self.stdout,
                end: fact.stdout.retained,
            }
        } else if self.stderr < fact.stderr.retained {
            BoundedNext::Replay {
                stream: Stream::Stderr,
                offset: self.stderr,
                end: fact.stderr.retained,
            }
        } else if fact.collected() && fact.io_inflight == 0 && (fact.leader_exit.is_some()
            || cancel_finished) && (fact.first_stop.is_none() || fact.original_group_absent
            || cancel_finished) {
            BoundedNext::End(fact)
        } else {
            BoundedNext::Wait
        };
        Some(BoundedTurn { state, receipt: receipts.take(), next })
    }

    /// The sender after `count` bytes of a stream were sent.
    pub open spec fn advanced(self, stream: Stream, count: int) -> BoundedSender {
        match stream {
            Stream::Stdout => BoundedSender {
                stdout: (self.stdout + count) as u64,
                prefer_stdout: false,
                ..self
            },
            Stream::Stderr => BoundedSender {
                stderr: (self.stderr + count) as u64,
                prefer_stdout: true,
                ..self
            },
        }
    }

    /// `count` bytes were read for the turn. `true` means that they are sent,
    /// and the position moves past them; an attachment that lost the session
    /// meanwhile sends nothing.
    pub fn replayed<H: GroupSignal>(&mut self, broker: &Broker<H>, stream: Stream, count: usize)
        -> (r: bool)
        requires
            broker.is_bounded(),
            old(self).within(broker.policy()),
            old(self).position(stream) + count <= broker.policy().of(stream).retained,
        ensures
            r == broker.session.attachment.holds(old(self).generation),
            r ==> *final(self) == old(self).advanced(stream, count as int),
            !r ==> *final(self) == *old(self),
            final(self).within(broker.policy()),
    {
        if !broker.session.is_current_attachment(self.generation) {
            return false;
        }
        match stream {
            Stream::Stdout => {
                self.stdout = self.stdout + count as u64;
                self.prefer_stdout = false;
            },
            Stream::Stderr => {
                self.stderr = self.stderr + count as u64;
                self.prefer_stdout = true;
            },
        }
        true
    }
}

/// The end of a replay is sent only after everything that is retained.
pub proof fn end_follows_everything(sender: BoundedSender, fact: OutputFact, cancel_finished: bool)
    requires
        sender.within(fact),
        sender.next(fact, cancel_finished) is End,
    ensures
        sender.stdout == fact.stdout.retained,
        sender.stderr == fact.stderr.retained,
        fact.is_collected(),
        fact.io_inflight == 0,
{
}

/// A turn of a sender: whether its attachment held the session, what the session
/// told then, whether its cancellation had ended, and how many bytes a replay
/// read gave, if the turn made one.
pub struct ReplayTurn {
    pub holds: bool,
    pub fact: OutputFact,
    pub cancel_finished: bool,
    pub count: nat,
}

/// What a sender has sent, beside receipts: its frames, and the fact that ended
/// the replay, once one did.
pub struct Replaying {
    pub sender: BoundedSender,
    pub frames: Seq<FrameView>,
    pub ended: Option<OutputFact>,
}

impl Replaying {
    /// Whether a turn may come now: what is retained is in the buffers and never
    /// shrinks, and a read gives something of what it was asked for.
    pub open spec fn may_turn(self, turn: ReplayTurn, buffers: Buffers) -> bool {
        &&& self.sender.within(turn.fact)
        &&& turn.fact.stdout.retained <= buffers.stdout.len()
        &&& turn.fact.stderr.retained <= buffers.stderr.len()
        &&& self.sender.next(turn.fact, turn.cancel_finished) matches BoundedNext::Replay {
            offset,
            end,
            ..
        } ==> 0 < turn.count <= end - offset
    }

    /// The facts first, if they changed.
    pub open spec fn told(self, fact: OutputFact) -> Replaying {
        Replaying {
            sender: BoundedSender { last: Some(fact), ..self.sender },
            frames: if self.sender.last == Some(fact) {
                self.frames
            } else {
                self.frames.push(FrameView::OutputState(fact))
            },
            ..self
        }
    }

    /// What was sent after a turn. A sender that lost the session or has ended
    /// the replay sends nothing more.
    pub open spec fn after(self, turn: ReplayTurn, buffers: Buffers) -> Replaying {
        if self.ended is Some || !turn.holds {
            self
        } else {
            let told = self.told(turn.fact);
            match self.sender.next(turn.fact, turn.cancel_finished) {
                BoundedNext::Replay { stream, offset, .. } => Replaying {
                    sender: told.sender.advanced(stream, turn.count as int),
                    frames: told.frames.push(buffers.frame(stream, offset, offset + turn.count)),
                    ..told
                },
                BoundedNext::End(fact) => Replaying {
                    frames: told.frames.push(FrameView::OutputEnd(fact)),
                    ended: Some(fact),
                    ..told
                },
                BoundedNext::Wait => told,
            }
        }
    }
}

/// What a sender has sent after a run of turns.
pub open spec fn replayed_by(sender: BoundedSender, turns: Seq<ReplayTurn>, buffers: Buffers) -> Replaying
    decreases turns.len(),
{
    if turns.len() == 0 {
        Replaying { sender, frames: Seq::empty(), ended: None }
    } else {
        replayed_by(sender, turns.drop_last(), buffers).after(turns.last(), buffers)
    }
}

/// Whether each turn of a run may come when it does.
pub open spec fn may_be_replayed(
    sender: BoundedSender,
    turns: Seq<ReplayTurn>,
    buffers: Buffers,
) -> bool
    decreases turns.len(),
{
    turns.len() == 0 || may_be_replayed(sender, turns.drop_last(), buffers) && replayed_by(
        sender,
        turns.drop_last(),
        buffers,
    ).may_turn(turns.last(), buffers)
}

proof fn telling_carries_nothing(replaying: Replaying, fact: OutputFact)
    ensures
        crate::broker::sender::carried(replaying.told(fact).frames, Stream::Stdout) == crate::broker::sender::carried(
            replaying.frames,
            Stream::Stdout,
        ),
        crate::broker::sender::carried(replaying.told(fact).frames, Stream::Stderr) == crate::broker::sender::carried(
            replaying.frames,
            Stream::Stderr,
        ),
{
    let frames = replaying.told(fact).frames;
    if frames.len() > replaying.frames.len() {
        assert(frames.drop_last() =~= replaying.frames);
        assert(crate::broker::sender::carried(frames, Stream::Stdout)
            =~= crate::broker::sender::carried(replaying.frames, Stream::Stdout));
        assert(crate::broker::sender::carried(frames, Stream::Stderr)
            =~= crate::broker::sender::carried(replaying.frames, Stream::Stderr));
    }
}

/// The frames of a replay carry of each stream exactly the retained bytes from
/// the first position to where the sender stands, in order: none is missing and
/// none comes twice. The end comes last and once, when everything that its fact
/// names as retained was sent.
pub proof fn retained_output_is_sent_whole(
    sender: BoundedSender,
    turns: Seq<ReplayTurn>,
    buffers: Buffers,
)
    requires
        sender.stdout <= buffers.stdout.len(),
        sender.stderr <= buffers.stderr.len(),
        may_be_replayed(sender, turns, buffers),
    ensures
        ({
            let sent = replayed_by(sender, turns, buffers);
            &&& sender.stdout <= sent.sender.stdout <= buffers.stdout.len()
            &&& sender.stderr <= sent.sender.stderr <= buffers.stderr.len()
            &&& crate::broker::sender::carried(sent.frames, Stream::Stdout) == buffers.stdout.subrange(
                sender.stdout as int,
                sent.sender.stdout as int,
            )
            &&& crate::broker::sender::carried(sent.frames, Stream::Stderr) == buffers.stderr.subrange(
                sender.stderr as int,
                sent.sender.stderr as int,
            )
            &&& forall|i: int|
                0 <= i < sent.frames.len() && (#[trigger] sent.frames[i]) is OutputEnd
                    ==> sent.ended is Some && i == sent.frames.len() - 1
            &&& sent.ended matches Some(fact) ==> {
                &&& fact.is_collected()
                &&& sent.sender.stdout == fact.stdout.retained
                &&& sent.sender.stderr == fact.stderr.retained
                &&& sent.frames.len() > 0
                &&& sent.frames.last() == FrameView::OutputEnd(fact)
            }
        }),
    decreases turns.len(),
{
    let sent = replayed_by(sender, turns, buffers);
    if turns.len() == 0 {
        assert(buffers.stdout.subrange(sender.stdout as int, sender.stdout as int)
            =~= Seq::empty());
        assert(buffers.stderr.subrange(sender.stderr as int, sender.stderr as int)
            =~= Seq::empty());
    } else {
        retained_output_is_sent_whole(sender, turns.drop_last(), buffers);
        let before = replayed_by(sender, turns.drop_last(), buffers);
        let turn = turns.last();
        let told = before.told(turn.fact);
        telling_carries_nothing(before, turn.fact);
        if before.ended is None && turn.holds && !(before.sender.next(
            turn.fact,
            turn.cancel_finished,
        ) is Wait) {
            assert(sent.frames.drop_last() =~= told.frames);
            assert(crate::broker::sender::carried(sent.frames, Stream::Stdout) =~= buffers.stdout.subrange(
                sender.stdout as int,
                sent.sender.stdout as int,
            ));
            assert(crate::broker::sender::carried(sent.frames, Stream::Stderr) =~= buffers.stderr.subrange(
                sender.stderr as int,
                sent.sender.stderr as int,
            ));
        }
    }
}

/// While both streams have something to send they take turns.
pub proof fn streams_alternate(sender: BoundedSender, fact: OutputFact, count: int)
    requires
        sender.stdout < fact.stdout.retained,
        sender.stderr < fact.stderr.retained,
        sender.ready(fact) is Some,
        sender.advanced(sender.ready(fact)->0, count).stdout < fact.stdout.retained,
        sender.advanced(sender.ready(fact)->0, count).stderr < fact.stderr.retained,
    ensures
        sender.advanced(sender.ready(fact)->0, count).ready(fact) is Some,
        sender.advanced(sender.ready(fact)->0, count).ready(fact) != sender.ready(fact),
{
}

/// A replay ends only when the sender has sent everything that is retained, both
/// streams are collected and no storage work is outstanding; when the command's
/// exit is known or the cancellation has a result; and, where the session was
/// stopped, when its group is gone or the cancellation has a result. And once all
/// that holds, it does end, with these facts.
pub proof fn replays_end_once_all_is_settled<H: GroupSignal>(
    sender: &mut BoundedSender,
    broker: Broker<H>,
    receipts: &mut Receipts,
    r: Option<BoundedTurn>,
)
    requires
        broker.valid(),
        broker.is_bounded(),
        old(sender).within(broker.policy()),
        call_ensures(BoundedSender::turn::<H>, (sender, &broker, receipts), r),
    ensures
        r matches Some(turn) ==> {
            let meta = broker.session.meta;
            let output = meta.output->0;
            let control = broker.cancellation->0;
            let sent = old(sender).stdout == output.stdout.retained && old(sender).stderr
                == output.stderr.retained;
            let settled = output.stdout.collection !is Reading && output.stderr.collection
                !is Reading && output.io_inflight == 0;
            let exit_known = meta.status is Some || control.result is Some;
            let group_known = output.first_stop is None || control.group_absent || control.result
                is Some;
            &&& turn.next is End <==> sent && settled && exit_known && group_known
            &&& turn.next matches BoundedNext::End(fact) ==> {
                &&& fact.leader_exit is Some || control.result is Some
                &&& fact.first_stop is None || fact.original_group_absent || control.result is Some
                &&& fact.leader_exit == meta.status
                &&& fact.stdout.retained == old(sender).stdout
                &&& fact.stderr.retained == old(sender).stderr
                &&& fact.io_inflight == 0
                &&& fact.limit == output.limit
                &&& final(sender).last == Some(fact)
            }
        },
{
}

/// While something retained was not sent a turn reads it, from where the sender
/// stands towards what is retained; it waits only if nothing is left to send and
/// the replay cannot end. Where both streams have something, the preferred one is
/// read.
pub proof fn replays_continue_where_they_stand<H: GroupSignal>(
    sender: &mut BoundedSender,
    broker: Broker<H>,
    receipts: &mut Receipts,
    r: Option<BoundedTurn>,
)
    requires
        broker.valid(),
        broker.is_bounded(),
        old(sender).within(broker.policy()),
        call_ensures(BoundedSender::turn::<H>, (sender, &broker, receipts), r),
    ensures
        r matches Some(turn) ==> {
            let output = broker.session.meta.output->0;
            let stdout_left = old(sender).stdout < output.stdout.retained;
            let stderr_left = old(sender).stderr < output.stderr.retained;
            &&& turn.next is Replay <==> stdout_left || stderr_left
            &&& turn.next matches BoundedNext::Replay { stream, offset, end } ==> {
                &&& offset < end
                &&& stream is Stdout ==> offset == old(sender).stdout && end
                    == output.stdout.retained
                &&& stream is Stderr ==> offset == old(sender).stderr && end
                    == output.stderr.retained
                &&& stdout_left && stderr_left ==> (stream is Stdout <==> old(sender).prefer_stdout)
            }
        },
        final(sender).stdout == old(sender).stdout,
        final(sender).stderr == old(sender).stderr,
        final(sender).prefer_stdout == old(sender).prefer_stdout,
        final(sender).generation == old(sender).generation,
{
}

/// Only the attachment that holds the session takes turns. A turn tells the facts
/// exactly if they differ from those that were told last, and each receipt once.
pub proof fn facts_are_told_when_they_change<H: GroupSignal>(
    sender: &mut BoundedSender,
    broker: Broker<H>,
    receipts: &mut Receipts,
    r: Option<BoundedTurn>,
)
    requires
        broker.valid(),
        broker.is_bounded(),
        old(sender).within(broker.policy()),
        call_ensures(BoundedSender::turn::<H>, (sender, &broker, receipts), r),
    ensures
        r is Some <==> broker.session.attachment.current == Some(old(sender).generation),
        r is None ==> *final(sender) == *old(sender) && *final(receipts) == *old(receipts),
        r matches Some(turn) ==> {
            &&& final(sender).last is Some
            &&& turn.state is Some <==> final(sender).last != old(sender).last
            &&& turn.state is Some ==> turn.state == final(sender).last
            &&& turn.receipt == old(receipts).pending
            &&& final(receipts).pending is None
            &&& final(sender).last->0.leader_exit == broker.session.meta.status
            &&& final(sender).last->0.first_stop == broker.session.meta.output->0.first_stop
            &&& final(sender).last->0.stdout.retained
                == broker.session.meta.output->0.stdout.retained
            &&& final(sender).last->0.stderr.retained
                == broker.session.meta.output->0.stderr.retained
        },
{
}

/// Bytes that were read are sent only by the holder of the session, and move its
/// position of their own stream by their number; the other stream comes first
/// next.
pub proof fn replayed_bytes_move_their_stream<H: GroupSignal>(
    sender: &mut BoundedSender,
    broker: Broker<H>,
    stream: Stream,
    count: usize,
    r: bool,
)
    requires
        broker.is_bounded(),
        old(sender).within(broker.policy()),
        old(sender).position(stream) + count <= broker.policy().of(stream).retained,
        call_ensures(BoundedSender::replayed::<H>, (sender, &broker, stream, count), r),
    ensures
        r <==> broker.session.attachment.current == Some(old(sender).generation),
        !r ==> *final(sender) == *old(sender),
        r && stream is Stdout ==> final(sender).stdout == old(sender).stdout + count && final(sender).stderr == old(sender).stderr && !final(sender).prefer_stdout,
        r && stream is Stderr ==> final(sender).stderr == old(sender).stderr + count && final(sender).stdout == old(sender).stdout && final(sender).prefer_stdout,
        final(sender).generation == old(sender).generation,
        final(sender).last == old(sender).last,
{
}

/// A read takes as much as there is, but never more than 32768 bytes; so reads one
/// after the other come to the end.
pub proof fn reads_come_to_the_end(offset: u64, end: u64, r: usize)
    requires
        offset <= end,
        call_ensures(read_length, (offset, end), r),
    ensures
        offset + r <= end,
        r <= 32_768,
        offset + r == end || r == 32_768,
        offset < end ==> r > 0,
{
}

/// A read that gives nothing is a fault, and one that gives something is kept as
/// it is.
pub proof fn empty_reads_are_faults(data: Vec<u8>, r: Result<Vec<u8>, String>)
    requires
        call_ensures(check_read, (data,), r),
    ensures
        r is Err <==> data@.len() == 0,
        r matches Ok(kept) ==> kept@ == data@,
{
}

/// A session has at most one replay read outstanding. While it is, it pins the
/// session; nothing else changes.
pub proof fn one_replay_read_at_a_time<H: GroupSignal>(broker: &mut Broker<H>, r: bool)
    requires
        old(broker).valid(),
        old(broker).is_bounded(),
        call_ensures(Broker::<H>::replay_begin, (broker,), r),
    ensures
        r <==> !old(broker).pins.replay,
        !r ==> *final(broker) == *old(broker),
        r ==> {
            let before = old(broker).session.meta.output->0;
            let after = final(broker).session.meta.output->0;
            &&& final(broker).pins.replay
            &&& after.io_inflight == before.io_inflight + 1
            &&& after.stdout == before.stdout
            &&& after.stderr == before.stderr
            &&& after.first_stop == before.first_stop
            &&& final(broker).session.meta.stdout_end == old(broker).session.meta.stdout_end
            &&& final(broker).session.meta.stderr_end == old(broker).session.meta.stderr_end
        },
{
}

/// A replay read that returns frees its pin. One without a fault changes nothing
/// else. One with a fault takes back the claim of its stream to be complete, stops
/// the session for storage unless it was stopped before, and makes sure that its
/// cancellation has begun; what is retained stays retained.
pub proof fn replay_faults_stop_the_session<H: GroupSignal>(
    broker: &mut Broker<H>,
    now: u128,
    stream: Stream,
    fault: Option<StorageFault>,
)
    requires
        old(broker).valid(),
        old(broker).is_bounded(),
        old(broker).pins.replay,
        now <= MAX_CLOCK,
        call_ensures(Broker::<H>::replay_finished, (broker, now, stream, fault), ()),
    ensures
        ({
            let before = old(broker).session.meta.output->0;
            let after = final(broker).session.meta.output->0;
            let (own, own_after, other, other_after) = match stream {
                Stream::Stdout => (before.stdout, after.stdout, before.stderr, after.stderr),
                Stream::Stderr => (before.stderr, after.stderr, before.stdout, after.stdout),
            };
            &&& !final(broker).pins.replay
            &&& final(broker).pins.stdout == old(broker).pins.stdout
            &&& final(broker).pins.stderr == old(broker).pins.stderr
            &&& after.io_inflight == before.io_inflight - 1
            &&& other_after == other
            &&& own_after.retained == own.retained
            &&& own_after.collection == own.collection
            &&& fault is None ==> own_after == own && after.first_stop == before.first_stop
                && final(broker).cancellation->0.phase == old(broker).cancellation->0.phase
            &&& fault is Some ==> {
                &&& !own_after.prefix_complete
                &&& own.storage_fault is None ==> own_after.storage_fault == fault
                &&& own.storage_fault is Some ==> own_after.storage_fault == own.storage_fault
                &&& before.first_stop is None ==> after.first_stop->0 is StorageFault
                &&& before.first_stop is Some ==> after.first_stop == before.first_stop
                &&& after.first_stop is Some
                &&& final(broker).cancellation->0.phase !is Ready
            }
        }),
{
}

/// A replay begins where its attachment resumes, for its own attachment, with
/// nothing told.
pub proof fn replays_begin_where_they_resume(
    generation: u64,
    stdout: u64,
    stderr: u64,
    r: BoundedSender,
)
    requires
        call_ensures(BoundedSender::new, (generation, stdout, stderr), r),
    ensures
        r.generation == generation,
        r.stdout == stdout,
        r.stderr == stderr,
        r.prefer_stdout,
        r.last is None,
{
}

/// A failed replay says which of its halves failed, and that the session stays.
pub proof fn replay_faults_are_told_apart(fault: StorageFault, r: String)
    requires
        call_ensures(replay_fault_message, (fault,), r),
    ensures
        fault is ReplayOpen ==> r@ == "bounded replay fault: ReplayOpen; session retained"@,
        fault is ReplayRead ==> r@ == "bounded replay fault: ReplayRead; session retained"@,
{
}

} // verus!
