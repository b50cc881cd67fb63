//! The sending side of an attachment: receipts, retained output, live output.
use vstd::prelude::*;

use crate::broker::{Session, Stream};
use crate::protocol::{ExitResult, FrameView};
use crate::text::bytes_range;

verus! {

/// The latest stdin position that an attachment has not been told. Positions in
/// between are not kept.
#[derive(Clone, Copy, Debug, PartialEq, Eq, Structural)]
pub struct Receipts {
    pub pending: Option<u64>,
}

impl Receipts {
    pub fn new() -> (r: Receipts)
        ensures
            r.pending is None,
    {
        Receipts { pending: None }
    }

    /// Notes a position. It takes the place of one that was not told.
    pub fn publish(&mut self, position: u64)
        ensures
            final(self).pending == Some(position),
    {
        self.pending = Some(position);
    }

    /// Takes the position that is to be told.
    pub fn take(&mut self) -> (r: Option<u64>)
        ensures
            r == old(self).pending,
            final(self).pending is None,
    {
        let r = self.pending;
        self.pending = None;
        r
    }
}

/// What a turn of a sender sends: a receipt if there is one, and then at most
/// one thing more.
#[derive(Clone, Copy, Debug, PartialEq, Eq, Structural)]
pub struct SendTurn {
    pub receipt: Option<u64>,
    pub next: SendNext,
}

/// What a sender does after a receipt.
#[derive(Clone, Copy, Debug, PartialEq, Eq, Structural)]
pub enum SendNext {
    /// Read the stream's buffer from `offset` towards `end` and send it.
    Read { stream: Stream, offset: u64, end: u64 },
    /// Send the exit, and stop.
    Exit(ExitResult),
    /// Wait for a change, a receipt or live output.
    Wait,
}

/// The sending side of an attachment to a buffered session.
#[derive(Clone, Copy, Debug, PartialEq, Eq, Structural)]
pub struct BufferedSender {
    pub generation: u64,
    pub stdout_position: u64,
    pub stderr_position: u64,
    pub prefer_stdout: bool,
}

impl BufferedSender {
    pub open spec fn position(self, stream: Stream) -> u64 {
        match stream {
            Stream::Stdout => self.stdout_position,
            Stream::Stderr => self.stderr_position,
        }
    }

    /// Nothing was sent beyond the recorded ends.
    pub open spec fn within(self, session: Session) -> bool {
        self.stdout_position <= session.meta.stdout_end && self.stderr_position
            <= session.meta.stderr_end
    }

    /// The stream whose turn it is to be sent, if one has something to send.
    pub open spec fn ready(self, session: Session) -> Option<Stream> {
        let stdout_ready = self.stdout_position < session.meta.stdout_end;
        let stderr_ready = self.stderr_position < session.meta.stderr_end;
        if stdout_ready && (self.prefer_stdout || !stderr_ready) {
            Some(Stream::Stdout)
        } else if stderr_ready {
            Some(Stream::Stderr)
        } else {
            None
        }
    }

    /// What comes after the receipt.
    pub open spec fn next(self, session: Session) -> SendNext {
        match self.ready(session) {
            Some(stream) => SendNext::Read {
                stream,
                offset: self.position(stream),
                end: session.meta.end(stream),
            },
            None => match session.meta.told_exit() {
                Some(status) => SendNext::Exit(status),
                None => SendNext::Wait,
            },
        }
    }

    /// The sender after `count` bytes of a stream were sent.
    pub open spec fn advanced(self, stream: Stream, count: int) -> BufferedSender {
        match stream {
            Stream::Stdout => BufferedSender {
                stdout_position: (self.stdout_position + count) as u64,
                prefer_stdout: false,
                ..self
            },
            Stream::Stderr => BufferedSender {
                stderr_position: (self.stderr_position + count) as u64,
                prefer_stdout: true,
                ..self
            },
        }
    }

    pub fn new(generation: u64, stdout_position: u64, stderr_position: u64) -> (r: BufferedSender)
        ensures
            r == (BufferedSender {
                generation,
                stdout_position,
                stderr_position,
                prefer_stdout: true,
            }),
    {
        BufferedSender { generation, stdout_position, stderr_position, prefer_stdout: true }
    }

    /// One turn. Nothing is sent by an attachment that lost the session.
    pub fn turn(&self, session: &Session, receipts: &mut Receipts) -> (r: Option<SendTurn>)
        ensures
            r is Some <==> session.attachment.holds(self.generation),
            match r {
                None => *final(receipts) == *old(receipts),
                Some(turn) => {
                    &&& turn.receipt == old(receipts).pending
                    &&& final(receipts).pending is None
                    &&& turn.next == self.next(*session)
                },
            },
    {
        if !session.is_current_attachment(self.generation) {
            return None;
        }
        let receipt = receipts.take();
        let stdout_ready = self.stdout_position < session.meta.stdout_end;
        let stderr_ready = self.stderr_position < session.meta.stderr_end;
        let next = if stdout_ready && (self.prefer_stdout || !stderr_ready) {
            SendNext::Read {
                stream: Stream::Stdout,
                offset: self.stdout_position,
                end: session.meta.stdout_end,
            }
        } else if stderr_ready {
            SendNext::Read {
                stream: Stream::Stderr,
                offset: self.stderr_position,
                end: session.meta.stderr_end,
            }
        } else {
            match session.meta.terminal_exit() {
                Some(status) => SendNext::Exit(status),
                None => SendNext::Wait,
            }
        };
        Some(SendTurn { receipt, next })
    }

    /// Whether the exit of a turn may be sent: the attachment still holds the
    /// session after the turn's receipt was sent.
    pub fn may_end(&self, session: &Session) -> (r: bool)
        ensures
            r == session.attachment.holds(self.generation),
    {
        session.is_current_attachment(self.generation)
    }

    /// `count` bytes were read for the turn. `true` means that they are sent,
    /// and the position moves past them; an attachment that lost the session
    /// meanwhile sends nothing.
    pub fn sent(&mut self, session: &Session, stream: Stream, count: usize) -> (r: bool)
        requires
            old(self).within(*session),
            old(self).position(stream) + count <= session.meta.end(stream),
        ensures
            r == session.attachment.holds(old(self).generation),
            r ==> *final(self) == old(self).advanced(stream, count as int),
            !r ==> *final(self) == *old(self),
            final(self).within(*session),
    {
        if !session.is_current_attachment(self.generation) {
            return false;
        }
        match stream {
            Stream::Stdout => {
                self.stdout_position = self.stdout_position + count as u64;
                self.prefer_stdout = false;
            },
            Stream::Stderr => {
                self.stderr_position = self.stderr_position + count as u64;
                self.prefer_stdout = true;
            },
        }
        true
    }
}

/// An exit is sent only after all retained output, and only once both streams
/// are closed.
pub proof fn exit_follows_output(sender: BufferedSender, session: Session)
    requires
        sender.within(session),
        sender.next(session) is Exit,
    ensures
        sender.stdout_position == session.meta.stdout_end,
        sender.stderr_position == session.meta.stderr_end,
        session.meta.is_terminal(),
        session.meta.status == Some(sender.next(session)->Exit_0),
{
}

/// A live exit is sent only to the attachment that holds the session, only once
/// both streams are closed, and it is the recorded one.
pub proof fn live_exit_is_for_the_holder(sender: LiveSender, session: Session)
    requires
        sender.settled(session) matches Some(SendNext::Exit(_)),
    ensures
        session.attachment.holds(sender.generation),
        session.meta.is_terminal(),
        sender.settled(session) == Some(SendNext::Exit(session.meta.status->0)),
{
}

/// While both streams have something to send they take turns.
pub proof fn buffered_streams_alternate(sender: BufferedSender, session: Session, count: int)
    requires
        sender.stdout_position < session.meta.stdout_end,
        sender.stderr_position < session.meta.stderr_end,
        sender.ready(session) is Some,
        sender.advanced(sender.ready(session)->0, count).stdout_position < session.meta.stdout_end,
        sender.advanced(sender.ready(session)->0, count).stderr_position < session.meta.stderr_end,
    ensures
        sender.advanced(sender.ready(session)->0, count).ready(session) is Some,
        sender.advanced(sender.ready(session)->0, count).ready(session) != sender.ready(session),
{
}

/// A turn of a sender: the session as it was then, and how many bytes a read of
/// the stream's buffer gave, if the turn read one.
pub struct BufferedTurn {
    pub session: Session,
    pub count: nat,
}

/// What a sender has sent, beside receipts: its frames, and the session as it
/// was when the exit was sent, once it was.
pub struct Sending {
    pub sender: BufferedSender,
    pub frames: Seq<FrameView>,
    pub ended: Option<Session>,
}

/// What the buffers of a session hold in the end.
pub struct Buffers {
    pub stdout: Seq<u8>,
    pub stderr: Seq<u8>,
}

impl Buffers {
    pub open spec fn of(self, stream: Stream) -> Seq<u8> {
        match stream {
            Stream::Stdout => self.stdout,
            Stream::Stderr => self.stderr,
        }
    }

    /// The frame with the bytes between two positions of a stream.
    pub open spec fn frame(self, stream: Stream, from: u64, to: int) -> FrameView {
        let data = self.of(stream).subrange(from as int, to);
        match stream {
            Stream::Stdout => FrameView::StdoutData { offset: from, data },
            Stream::Stderr => FrameView::StderrData { offset: from, data },
        }
    }
}

impl Sending {
    /// Whether a turn may come now: what is recorded is in the buffers and never
    /// shrinks, and a read gives something of what it was asked for.
    pub open spec fn may_turn(self, turn: BufferedTurn, buffers: Buffers) -> bool {
        &&& self.sender.within(turn.session)
        &&& turn.session.meta.stdout_end <= buffers.stdout.len()
        &&& turn.session.meta.stderr_end <= buffers.stderr.len()
        &&& self.sender.next(turn.session) matches SendNext::Read { offset, end, .. } ==> 0
            < turn.count <= end - offset
    }

    /// What was sent after a turn. A sender that lost the session or has sent
    /// the exit sends nothing more.
    pub open spec fn after(self, turn: BufferedTurn, buffers: Buffers) -> Sending {
        if self.ended is Some || !turn.session.attachment.holds(self.sender.generation) {
            self
        } else {
            match self.sender.next(turn.session) {
                SendNext::Read { stream, offset, .. } => Sending {
                    sender: self.sender.advanced(stream, turn.count as int),
                    frames: self.frames.push(buffers.frame(stream, offset, offset + turn.count)),
                    ..self
                },
                SendNext::Exit(status) => Sending {
                    frames: self.frames.push(FrameView::Exit(status)),
                    ended: Some(turn.session),
                    ..self
                },
                SendNext::Wait => self,
            }
        }
    }
}

/// What a sender has sent after a run of turns.
pub open spec fn sent_by(sender: BufferedSender, turns: Seq<BufferedTurn>, buffers: Buffers) -> Sending
    decreases turns.len(),
{
    if turns.len() == 0 {
        Sending { sender, frames: Seq::empty(), ended: None }
    } else {
        sent_by(sender, turns.drop_last(), buffers).after(turns.last(), buffers)
    }
}

/// Whether each turn of a run may come when it does.
pub open spec fn may_be_sent(sender: BufferedSender, turns: Seq<BufferedTurn>, buffers: Buffers) -> bool
    decreases turns.len(),
{
    turns.len() == 0 || may_be_sent(sender, turns.drop_last(), buffers) && sent_by(
        sender,
        turns.drop_last(),
        buffers,
    ).may_turn(turns.last(), buffers)
}

/// The bytes of a stream that frames carry, one after the other.
pub open spec fn carried(frames: Seq<FrameView>, stream: Stream) -> Seq<u8>
    decreases frames.len(),
{
    if frames.len() == 0 {
        Seq::empty()
    } else {
        carried(frames.drop_last(), stream) + match frames.last() {
            FrameView::StdoutData { data, .. } => if stream == Stream::Stdout {
                data
            } else {
                Seq::empty()
            },
            FrameView::StderrData { data, .. } => if stream == Stream::Stderr {
                data
            } else {
                Seq::empty()
            },
            _ => Seq::empty(),
        }
    }
}

/// The frames of a sender carry of each stream exactly the bytes from the first
/// position to where the sender stands, in order: none is missing and none comes
/// twice. An exit comes last and once, when both streams were sent to their
/// ends.
pub proof fn buffered_output_is_sent_whole(
    sender: BufferedSender,
    turns: Seq<BufferedTurn>,
    buffers: Buffers,
)
    requires
        sender.stdout_position <= buffers.stdout.len(),
        sender.stderr_position <= buffers.stderr.len(),
        may_be_sent(sender, turns, buffers),
    ensures
        ({
            let sent = sent_by(sender, turns, buffers);
            &&& sent.sender.generation == sender.generation
            &&& sender.stdout_position <= sent.sender.stdout_position <= buffers.stdout.len()
            &&& sender.stderr_position <= sent.sender.stderr_position <= buffers.stderr.len()
            &&& carried(sent.frames, Stream::Stdout) == buffers.stdout.subrange(
                sender.stdout_position as int,
                sent.sender.stdout_position as int,
            )
            &&& carried(sent.frames, Stream::Stderr) == buffers.stderr.subrange(
                sender.stderr_position as int,
                sent.sender.stderr_position as int,
            )
            &&& forall|i: int|
                0 <= i < sent.frames.len() && (#[trigger] sent.frames[i]) is Exit ==> sent.ended
                    is Some && i == sent.frames.len() - 1
            &&& sent.ended matches Some(session) ==> {
                &&& session.meta.is_terminal()
                &&& sent.sender.stdout_position == session.meta.stdout_end
                &&& sent.sender.stderr_position == session.meta.stderr_end
                &&& sent.frames.len() > 0
                &&& sent.frames.last() == FrameView::Exit(session.meta.status->0)
            }
        }),
    decreases turns.len(),
{
    let sent = sent_by(sender, turns, buffers);
    if turns.len() == 0 {
        assert(buffers.stdout.subrange(
            sender.stdout_position as int,
            sender.stdout_position as int,
        ) =~= Seq::empty());
        assert(buffers.stderr.subrange(
            sender.stderr_position as int,
            sender.stderr_position as int,
        ) =~= Seq::empty());
    } else {
        buffered_output_is_sent_whole(sender, turns.drop_last(), buffers);
        let before = sent_by(sender, turns.drop_last(), buffers);
        let turn = turns.last();
        if sent.frames.len() > before.frames.len() {
            let frame = sent.frames.last();
            assert(sent.frames.drop_last() =~= before.frames);
            assert forall|i: int| 0 <= i < before.frames.len() implies sent.frames[i]
                == before.frames[i] by {}
            assert(carried(sent.frames, Stream::Stdout) =~= buffers.stdout.subrange(
                sender.stdout_position as int,
                sent.sender.stdout_position as int,
            ));
            assert(carried(sent.frames, Stream::Stderr) =~= buffers.stderr.subrange(
                sender.stderr_position as int,
                sent.sender.stderr_position as int,
            ));
        }
    }
}

/// The sending side of an attachment to an unbuffered session: what is not
/// taken from the live queue in time is lost, and shows as a gap.
#[derive(Clone, Copy, Debug, PartialEq, Eq, Structural)]
pub struct LiveSender {
    pub generation: u64,
    pub stdout_position: u64,
    pub stderr_position: u64,
    pub prefer_stdout: bool,
}

/// What remains of a live chunk for an attachment that stands at `position`: the
/// absolute position of its first byte, and its bytes. Nothing remains of a
/// chunk that was sent before.
pub open spec fn remainder(position: u64, offset: u64, data: Seq<u8>) -> Option<(u64, Seq<u8>)> {
    let skip = if position > offset {
        position - offset
    } else {
        0
    };
    if skip >= data.len() {
        None
    } else {
        Some(((offset + skip) as u64, data.skip(skip)))
    }
}

/// The later of two positions.
pub open spec fn later(position: u64, other: u64) -> u64 {
    if position < other {
        other
    } else {
        position
    }
}

impl LiveSender {
    pub open spec fn position(self, stream: Stream) -> u64 {
        match stream {
            Stream::Stdout => self.stdout_position,
            Stream::Stderr => self.stderr_position,
        }
    }

    /// The live queue that is asked at the given attempt of a turn: first the
    /// preferred one, then both, so that neither delays the other.
    pub open spec fn queue(self, attempt: u8) -> Option<Stream> {
        if attempt == 0 {
            Some(
                if self.prefer_stdout {
                    Stream::Stdout
                } else {
                    Stream::Stderr
                },
            )
        } else if attempt == 1 {
            Some(Stream::Stdout)
        } else if attempt == 2 {
            Some(Stream::Stderr)
        } else {
            None
        }
    }

    pub fn new(generation: u64, stdout_position: u64, stderr_position: u64) -> (r: LiveSender)
        ensures
            r == (LiveSender { generation, stdout_position, stderr_position, prefer_stdout: true }),
    {
        LiveSender { generation, stdout_position, stderr_position, prefer_stdout: true }
    }

    /// Begins a turn: the receipt to send, unless the attachment lost the
    /// session.
    pub fn begin_turn(&self, session: &Session, receipts: &mut Receipts) -> (r: Option<Option<u64>>)
        ensures
            match r {
                None => !session.attachment.holds(self.generation) && *final(receipts) == *old(
                    receipts,
                ),
                Some(receipt) => session.attachment.holds(self.generation) && receipt == old(
                    receipts,
                ).pending && final(receipts).pending is None,
            },
    {
        if !session.is_current_attachment(self.generation) {
            return None;
        }
        Some(receipts.take())
    }

    /// The queue to ask next, after `attempt` queues had nothing.
    pub fn next_queue(&self, attempt: u8) -> (r: Option<Stream>)
        ensures
            r == self.queue(attempt),
    {
        match attempt {
            0 => Some(
                if self.prefer_stdout {
                    Stream::Stdout
                } else {
                    Stream::Stderr
                },
            ),
            1 => Some(Stream::Stdout),
            2 => Some(Stream::Stderr),
            _ => None,
        }
    }

    /// What comes when no queue had anything: the exit, which follows all output
    /// that was not lost, or a wait. Nothing means that the exit is due but the
    /// attachment lost the session.
    pub open spec fn settled(self, session: Session) -> Option<SendNext> {
        match session.meta.told_exit() {
            None => Some(SendNext::Wait),
            Some(status) => if session.attachment.holds(self.generation) {
                Some(SendNext::Exit(status))
            } else {
                None
            },
        }
    }

    /// What to do when no queue had anything. Once the exit is sent the sender
    /// stands at the recorded ends: what is missing was lost.
    pub fn settle(&mut self, session: &Session) -> (r: Option<SendNext>)
        ensures
            r == old(self).settled(*session),
            r matches Some(SendNext::Exit(_)) ==> *final(self) == (LiveSender {
                stdout_position: later(old(self).stdout_position, session.meta.stdout_end),
                stderr_position: later(old(self).stderr_position, session.meta.stderr_end),
                ..*old(self)
            }),
            !(r matches Some(SendNext::Exit(_))) ==> *final(self) == *old(self),
    {
        match session.meta.terminal_exit() {
            None => Some(SendNext::Wait),
            Some(status) => {
                if !session.is_current_attachment(self.generation) {
                    return None;
                }
                if self.stdout_position < session.meta.stdout_end {
                    self.stdout_position = session.meta.stdout_end;
                }
                if self.stderr_position < session.meta.stderr_end {
                    self.stderr_position = session.meta.stderr_end;
                }
                Some(SendNext::Exit(status))
            },
        }
    }

    /// The sender after it dealt with a chunk that ends at `end`. `turned` says
    /// whether the chunk was found by asking the queues in turn.
    pub open spec fn after_chunk(self, stream: Stream, end: u64, turned: bool) -> LiveSender {
        let moved = match stream {
            Stream::Stdout => LiveSender { stdout_position: end, ..self },
            Stream::Stderr => LiveSender { stderr_position: end, ..self },
        };
        LiveSender {
            prefer_stdout: if turned {
                stream == Stream::Stderr
            } else {
                self.prefer_stdout
            },
            ..moved
        }
    }

    /// Deals with a live chunk: the frame to send for it, if any of it is new
    /// and the attachment still holds the session.
    pub fn chunk(
        &mut self,
        session: &Session,
        stream: Stream,
        offset: u64,
        data: &[u8],
        turned: bool,
    ) -> (r: Option<(u64, Vec<u8>)>)
        requires
            offset + data@.len() <= u64::MAX,
        ensures
            ({
                let rest = remainder(old(self).position(stream), offset, data@);
                &&& r is Some <==> rest is Some && session.attachment.holds(old(self).generation)
                &&& r matches Some((start, bytes)) ==> rest == Some((start, bytes@))
                &&& r is Some ==> *final(self) == old(self).after_chunk(
                    stream,
                    (offset + data@.len()) as u64,
                    turned,
                )
                &&& r is None ==> *final(self) == old(self).after_chunk(
                    stream,
                    old(self).position(stream),
                    turned,
                )
            }),
    {
        if turned {
            self.prefer_stdout = match stream {
                Stream::Stdout => false,
                Stream::Stderr => true,
            };
        }
        let position: u64 = match stream {
            Stream::Stdout => self.stdout_position,
            Stream::Stderr => self.stderr_position,
        };
        let behind: u64 = position.saturating_sub(offset);
        if behind >= data.len() as u64 {
            return None;
        }
        let skip: usize = behind as usize;
        if !session.is_current_attachment(self.generation) {
            return None;
        }
        let rest = bytes_range(data, skip, data.len());
        assert(rest@ =~= data@.skip(skip as int));
        let end: u64 = offset + data.len() as u64;
        match stream {
            Stream::Stdout => {
                self.stdout_position = end;
            },
            Stream::Stderr => {
                self.stderr_position = end;
            },
        }
        Some((offset + skip as u64, rest))
    }
}

/// What is sent of a live chunk continues the stream or shows a gap: it begins
/// at the position of the attachment or behind it, never before it, and its
/// bytes are those of the chunk at their own positions.
pub proof fn live_output_is_never_repeated(position: u64, offset: u64, data: Seq<u8>)
    requires
        offset + data.len() <= u64::MAX,
        remainder(position, offset, data) is Some,
    ensures
        ({
            let (start, rest) = remainder(position, offset, data)->0;
            &&& start >= position
            &&& start >= offset
            &&& start + rest.len() == offset + data.len()
            &&& forall|i: int| 0 <= i < rest.len() ==> rest[i] == data[start - offset + i]
            &&& offset <= position ==> start == position
        }),
{
}

/// A receipt is told once, and it is the latest that was noted.
pub proof fn the_latest_receipt_is_told_once(
    receipts: &mut Receipts,
    r: Option<u64>,
)
    requires
        call_ensures(Receipts::take, (receipts,), r),
    ensures
        r == old(receipts).pending,
        final(receipts).pending is None,
{
}

/// A position that is noted is the one that is told next, whatever was noted
/// before.
pub proof fn noted_positions_take_precedence(receipts: &mut Receipts, position: u64)
    requires
        call_ensures(Receipts::publish, (receipts, position), ()),
    ensures
        final(receipts).pending == Some(position),
{
}

/// Only the holder of a session sends. While something recorded was not sent it is
/// read, from where the sender stands towards the recorded end of its stream. The
/// exit comes exactly when everything was sent, both streams are closed and an exit
/// was recorded, and it is that exit.
pub proof fn exits_are_sent_after_all_output(
    sender: BufferedSender,
    session: Session,
    receipts: &mut Receipts,
    r: Option<SendTurn>,
)
    requires
        sender.within(session),
        call_ensures(BufferedSender::turn, (&sender, &session, receipts), r),
    ensures
        r is Some <==> session.attachment.current == Some(sender.generation),
        r is None ==> *final(receipts) == *old(receipts),
        r matches Some(turn) ==> {
            let meta = session.meta;
            let stdout_left = sender.stdout_position < meta.stdout_end;
            let stderr_left = sender.stderr_position < meta.stderr_end;
            &&& turn.receipt == old(receipts).pending
            &&& final(receipts).pending is None
            &&& turn.next is Read <==> stdout_left || stderr_left
            &&& turn.next matches SendNext::Read { stream, offset, end } ==> {
                &&& offset < end
                &&& stream is Stdout ==> offset == sender.stdout_position && end == meta.stdout_end
                &&& stream is Stderr ==> offset == sender.stderr_position && end == meta.stderr_end
                &&& stdout_left && stderr_left ==> (stream is Stdout <==> sender.prefer_stdout)
            }
            &&& turn.next is Exit <==> sender.stdout_position == meta.stdout_end
                && sender.stderr_position == meta.stderr_end && meta.stdout_closed
                && meta.stderr_closed && meta.status is Some
            &&& turn.next matches SendNext::Exit(exit) ==> Some(exit) == meta.status
        },
{
}

/// Bytes that were read are sent only by the holder, and move its position of their
/// own stream by their number; the other stream comes first next.
pub proof fn sent_bytes_move_their_stream(
    sender: &mut BufferedSender,
    session: Session,
    stream: Stream,
    count: usize,
    r: bool,
)
    requires
        old(sender).within(session),
        old(sender).position(stream) + count <= session.meta.end(stream),
        call_ensures(BufferedSender::sent, (sender, &session, stream, count), r),
    ensures
        r <==> session.attachment.current == Some(old(sender).generation),
        !r ==> *final(sender) == *old(sender),
        r && stream is Stdout ==> final(sender).stdout_position == old(sender).stdout_position
            + count && final(sender).stderr_position == old(sender).stderr_position && !final(sender).prefer_stdout,
        r && stream is Stderr ==> final(sender).stderr_position == old(sender).stderr_position
            + count && final(sender).stdout_position == old(sender).stdout_position && final(sender).prefer_stdout,
        final(sender).generation == old(sender).generation,
{
}

/// The exit is sent only by the attachment that still holds the session.
pub proof fn only_the_holder_ends(sender: BufferedSender, session: Session, r: bool)
    requires
        call_ensures(BufferedSender::may_end, (&sender, &session), r),
    ensures
        r <==> session.attachment.current == Some(sender.generation),
{
}

/// A live turn begins only for the holder, with the receipt that is due.
pub proof fn live_turns_belong_to_the_holder(
    sender: LiveSender,
    session: Session,
    receipts: &mut Receipts,
    r: Option<Option<u64>>,
)
    requires
        call_ensures(LiveSender::begin_turn, (&sender, &session, receipts), r),
    ensures
        r is Some <==> session.attachment.current == Some(sender.generation),
        r is None ==> *final(receipts) == *old(receipts),
        r matches Some(receipt) ==> receipt == old(receipts).pending && final(receipts).pending is None,
{
}

/// In a turn both queues are asked, the preferred one first, and then no more.
pub proof fn both_queues_are_asked(
    sender: LiveSender,
    first: Option<Stream>,
    second: Option<Stream>,
    third: Option<Stream>,
    attempt: u8,
    later: Option<Stream>,
)
    requires
        call_ensures(LiveSender::next_queue, (&sender, 0u8), first),
        call_ensures(LiveSender::next_queue, (&sender, 1u8), second),
        call_ensures(LiveSender::next_queue, (&sender, 2u8), third),
        attempt > 2,
        call_ensures(LiveSender::next_queue, (&sender, attempt), later),
    ensures
        first is Some && (first->0 is Stdout <==> sender.prefer_stdout),
        first == Some(Stream::Stdout) || second == Some(Stream::Stdout) || third == Some(
            Stream::Stdout,
        ),
        first == Some(Stream::Stderr) || second == Some(Stream::Stderr) || third == Some(
            Stream::Stderr,
        ),
        second is Some && third is Some && second != third,
        later is None,
{
}

/// When no queue has anything, the holder gets the exit exactly if both streams are
/// closed and it was recorded; it then stands at the recorded ends, or behind them
/// if it was. Otherwise it waits, or is superseded, and nothing moves.
pub proof fn live_exits_follow_the_streams(
    sender: &mut LiveSender,
    session: Session,
    r: Option<SendNext>,
)
    requires
        call_ensures(LiveSender::settle, (sender, &session), r),
    ensures
        ({
            let meta = session.meta;
            let over = meta.stdout_closed && meta.stderr_closed && meta.status is Some;
            let holder = session.attachment.current == Some(old(sender).generation);
            &&& !over ==> r == Some(SendNext::Wait) && *final(sender) == *old(sender)
            &&& over && !holder ==> r is None && *final(sender) == *old(sender)
            &&& over && holder ==> {
                &&& r matches Some(SendNext::Exit(exit)) && Some(exit) == meta.status
                &&& final(sender).stdout_position >= meta.stdout_end
                &&& final(sender).stderr_position >= meta.stderr_end
                &&& final(sender).stdout_position == meta.stdout_end || final(sender).stdout_position == old(sender).stdout_position
                &&& final(sender).stderr_position == meta.stderr_end || final(sender).stderr_position == old(sender).stderr_position
            }
            &&& final(sender).stdout_position >= old(sender).stdout_position
            &&& final(sender).stderr_position >= old(sender).stderr_position
        }),
{
}

/// Of a live chunk the holder sends exactly what lies behind its position, at its
/// own place; the position moves to the end of the chunk. What was sent before is
/// never sent again, and nobody else sends anything.
pub proof fn live_chunks_are_sent_once(
    sender: &mut LiveSender,
    session: Session,
    stream: Stream,
    offset: u64,
    data: &[u8],
    turned: bool,
    r: Option<(u64, Vec<u8>)>,
)
    requires
        offset + data@.len() <= u64::MAX,
        call_ensures(LiveSender::chunk, (sender, &session, stream, offset, data, turned), r),
    ensures
        ({
            let end = offset + data@.len();
            let holder = session.attachment.current == Some(old(sender).generation);
            let (at, now, other, other_now) = match stream {
                Stream::Stdout => (
                    old(sender).stdout_position,
                    final(sender).stdout_position,
                    old(sender).stderr_position,
                    final(sender).stderr_position,
                ),
                Stream::Stderr => (
                    old(sender).stderr_position,
                    final(sender).stderr_position,
                    old(sender).stdout_position,
                    final(sender).stdout_position,
                ),
            };
            &&& r is Some <==> holder && data@.len() > 0 && end > at
            &&& r is None ==> now == at
            &&& r matches Some((start, bytes)) ==> {
                &&& now == end
                &&& start >= at
                &&& start >= offset
                &&& start == at || start == offset
                &&& start + bytes@.len() == end
                &&& forall|i: int|
                    0 <= i < bytes@.len() ==> #[trigger] bytes@[i] == data@[start - offset + i]
            }
            &&& other_now == other
            &&& turned ==> (final(sender).prefer_stdout <==> stream is Stderr)
            &&& !turned ==> final(sender).prefer_stdout == old(sender).prefer_stdout
            &&& final(sender).generation == old(sender).generation
        }),
{
}

/// A sender begins where its attachment resumes, for its own attachment, and with
/// stdout; nothing is to be told yet.
pub proof fn senders_begin_where_they_resume(
    generation: u64,
    stdout: u64,
    stderr: u64,
    buffered: BufferedSender,
    live: LiveSender,
    receipts: Receipts,
)
    requires
        call_ensures(BufferedSender::new, (generation, stdout, stderr), buffered),
        call_ensures(LiveSender::new, (generation, stdout, stderr), live),
        call_ensures(Receipts::new, (), receipts),
    ensures
        buffered.generation == generation && live.generation == generation,
        buffered.stdout_position == stdout && live.stdout_position == stdout,
        buffered.stderr_position == stderr && live.stderr_position == stderr,
        buffered.prefer_stdout && live.prefer_stdout,
        receipts.pending is None,
{
}

} // verus!
