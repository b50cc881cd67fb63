//! The retained state of a session, and what its attachments may do to it.
use vstd::prelude::*;

pub mod bounds;
pub mod collect;
pub mod lifecycle;
pub mod opening;
pub mod replay;
pub mod sender;

use crate::attachment::{AttachmentLease, AttachmentState};
use crate::cancellation::{Cancellation, CancellationView};
use crate::group_pidfd::GroupSignal;
use crate::output::OutputFact;
use crate::protocol::ExitResult;
use crate::text;
use crate::text::{bytes_range, decimal_text, join};

verus! {

/// Most bytes moved by one read or write.
pub const CHUNK_SIZE: usize = 32_768;

/// One of the two output streams.
#[derive(Clone, Copy, Debug, PartialEq, Eq, Structural)]
pub enum Stream {
    Stdout,
    Stderr,
}

/// Why input is refused.
#[derive(Clone, Copy, Debug, PartialEq, Eq, Structural)]
pub enum StdinError {
    StartBeyondEof,
    OpeningGap(u64),
    StartBeyondDeclared,
    AlreadyDeclared(u64),
    EofBehind { offset: u64, position: u64 },
    AfterEof,
    Gap(u64),
    Overflow,
    BeyondDeclared,
    PipeClosed,
}

impl StdinError {
    /// The diagnostic for the error.
    pub open spec fn text(self) -> Seq<char> {
        match self {
            StdinError::StartBeyondEof => "stdin start is beyond the recorded EOF"@,
            StdinError::OpeningGap(position) => "buffered stdin contains a gap at byte "@
                + text::decimal(position as nat),
            StdinError::StartBeyondDeclared => "stdin start is beyond the declared EOF"@,
            StdinError::AlreadyDeclared(offset) => "stdin EOF was already declared at byte "@
                + text::decimal(offset as nat),
            StdinError::EofBehind { offset, position } => "stdin EOF at byte "@ + text::decimal(
                offset as nat,
            ) + " is behind accepted byte "@ + text::decimal(position as nat),
            StdinError::AfterEof => "stdin data arrived after EOF"@,
            StdinError::Gap(position) => "stdin contains a gap at offset "@ + text::decimal(
                position as nat,
            ),
            StdinError::Overflow => "stdin frame position overflowed"@,
            StdinError::BeyondDeclared => "stdin data extends beyond its declared EOF"@,
            StdinError::PipeClosed => "command stdin closed"@,
        }
    }

    pub fn message(&self) -> (r: String)
        ensures
            r@ == self.text(),
    {
        match self {
            StdinError::StartBeyondEof => "stdin start is beyond the recorded EOF".to_owned(),
            StdinError::OpeningGap(position) => {
                join("buffered stdin contains a gap at byte ", decimal_text(*position).as_str())
            },
            StdinError::StartBeyondDeclared => "stdin start is beyond the declared EOF".to_owned(),
            StdinError::AlreadyDeclared(offset) => {
                join("stdin EOF was already declared at byte ", decimal_text(*offset).as_str())
            },
            StdinError::EofBehind { offset, position } => {
                let mut r = join("stdin EOF at byte ", decimal_text(*offset).as_str());
                r.append(" is behind accepted byte ");
                r.append(decimal_text(*position).as_str());
                r
            },
            StdinError::AfterEof => "stdin data arrived after EOF".to_owned(),
            StdinError::Gap(position) => {
                join("stdin contains a gap at offset ", decimal_text(*position).as_str())
            },
            StdinError::Overflow => "stdin frame position overflowed".to_owned(),
            StdinError::BeyondDeclared => "stdin data extends beyond its declared EOF".to_owned(),
            StdinError::PipeClosed => "command stdin closed".to_owned(),
        }
    }
}

/// The retained state of a session's streams and command. Positions count the
/// bytes of a stream from its beginning.
#[derive(Clone, Copy, Debug, PartialEq, Eq, Structural)]
pub struct Meta {
    pub stdin_position: u64,
    pub stdin_eof: bool,
    pub stdin_eof_at: Option<u64>,
    pub stdout_end: u64,
    pub stderr_end: u64,
    pub stdout_closed: bool,
    pub stderr_closed: bool,
    pub status: Option<ExitResult>,
    pub output: Option<OutputFact>,
}

impl Meta {
    /// What holds of retained state: input never passes its declared end, EOF
    /// is recorded exactly there, and a recorded exit is an actual one.
    pub open spec fn valid(self) -> bool {
        &&& self.stdin_eof ==> self.stdin_eof_at == Some(self.stdin_position)
        &&& self.stdin_eof_at is Some ==> self.stdin_position <= self.stdin_eof_at->0
        &&& self.status is Some ==> self.status->0.is_actual()
    }

    /// The state of a session that has just started.
    pub open spec fn initial() -> Meta {
        Meta {
            stdin_position: 0,
            stdin_eof: false,
            stdin_eof_at: None,
            stdout_end: 0,
            stderr_end: 0,
            stdout_closed: false,
            stderr_closed: false,
            status: None,
            output: None,
        }
    }

    /// Whether the command has exited and both output streams are closed.
    pub open spec fn is_terminal(self) -> bool {
        self.status is Some && self.stdout_closed && self.stderr_closed
    }

    /// The exit that may be told: the recorded one, once output is closed too.
    pub open spec fn told_exit(self) -> Option<ExitResult> {
        if self.stdout_closed && self.stderr_closed {
            self.status
        } else {
            None
        }
    }

    /// The recorded end of a stream.
    pub open spec fn end(self, stream: Stream) -> u64 {
        match stream {
            Stream::Stdout => self.stdout_end,
            Stream::Stderr => self.stderr_end,
        }
    }

    /// What declaring EOF at `offset` leads to.
    pub open spec fn eof_declared(self, offset: u64) -> Result<Meta, StdinError> {
        if offset < self.stdin_position {
            Err(StdinError::EofBehind { offset, position: self.stdin_position })
        } else if self.stdin_eof_at is Some && self.stdin_eof_at->0 != offset {
            Err(StdinError::AlreadyDeclared(self.stdin_eof_at->0))
        } else {
            Ok(
                Meta {
                    stdin_eof_at: Some(offset),
                    stdin_eof: self.stdin_eof || offset == self.stdin_position,
                    ..self
                },
            )
        }
    }

    /// Where a frame of `length` bytes at `offset` continues the input: how many
    /// of its bytes were accepted before, and the position of the first new one.
    pub open spec fn frame_start(self, offset: u64, length: nat, nobuffer: bool) -> Result<
        (int, int),
        StdinError,
    > {
        let start = if self.stdin_position <= offset {
            0
        } else if self.stdin_position - offset >= length {
            length as int
        } else {
            self.stdin_position - offset
        };
        let position = if offset > self.stdin_position {
            offset as int
        } else {
            self.stdin_position as int
        };
        if self.stdin_eof {
            Err(StdinError::AfterEof)
        } else if offset > self.stdin_position && !nobuffer {
            Err(StdinError::Gap(self.stdin_position))
        } else if position + (length - start) > u64::MAX {
            Err(StdinError::Overflow)
        } else if self.stdin_eof_at is Some && position + (length - start) > self.stdin_eof_at->0 {
            Err(StdinError::BeyondDeclared)
        } else {
            Ok((start, position))
        }
    }

    /// The state after input was accepted up to `position`.
    pub open spec fn advanced(self, position: int) -> Meta {
        Meta {
            stdin_position: position as u64,
            stdin_eof: self.stdin_eof || self.stdin_eof_at == Some(position as u64),
            ..self
        }
    }

    /// What an opening that retains input from `start` on, and knows that input
    /// ends at `eof`, leads to.
    pub open spec fn opened(self, start: u64, eof: Option<u64>, nobuffer: bool) -> Result<
        Meta,
        StdinError,
    > {
        let position = if start > self.stdin_position {
            start
        } else {
            self.stdin_position
        };
        let end = if eof is Some {
            eof
        } else {
            self.stdin_eof_at
        };
        if start > self.stdin_position && self.stdin_eof {
            Err(StdinError::StartBeyondEof)
        } else if start > self.stdin_position && !nobuffer {
            Err(StdinError::OpeningGap(self.stdin_position))
        } else if start > self.stdin_position && self.stdin_eof_at is Some && start
            > self.stdin_eof_at->0 {
            Err(StdinError::StartBeyondDeclared)
        } else if eof is Some && self.stdin_eof_at is Some && eof != self.stdin_eof_at {
            Err(StdinError::AlreadyDeclared(self.stdin_eof_at->0))
        } else if end is Some && end->0 < position {
            Err(StdinError::EofBehind { offset: end->0, position })
        } else {
            Ok(
                Meta {
                    stdin_position: position,
                    stdin_eof_at: end,
                    stdin_eof: self.stdin_eof || end == Some(position),
                    ..self
                },
            )
        }
    }

    pub fn terminal(&self) -> (r: bool)
        ensures
            r == self.is_terminal(),
    {
        self.status.is_some() && self.stdout_closed && self.stderr_closed
    }

    /// The exit that may be told to an attachment.
    pub fn terminal_exit(&self) -> (r: Option<ExitResult>)
        ensures
            r == self.told_exit(),
            r is Some <==> self.is_terminal(),
    {
        if self.stdout_closed && self.stderr_closed {
            self.status
        } else {
            None
        }
    }
}

impl Default for Meta {
    fn default() -> (r: Self)
        ensures
            r == Meta::initial(),
            r.valid(),
    {
        Meta {
            stdin_position: 0,
            stdin_eof: false,
            stdin_eof_at: None,
            stdout_end: 0,
            stderr_end: 0,
            stdout_closed: false,
            stderr_closed: false,
            status: None,
            output: None,
        }
    }
}

/// Records that input ends at `offset`. `true` means that it has ended.
pub fn declare_stdin_eof_locked(meta: &mut Meta, offset: u64) -> (r: Result<bool, StdinError>)
    requires
        old(meta).valid(),
    ensures
        final(meta).valid(),
        match r {
            Ok(reached) => old(meta).eof_declared(offset) == Ok::<Meta, StdinError>(*final(meta))
                && reached == (offset == old(meta).stdin_position),
            Err(error) => old(meta).eof_declared(offset) == Err::<Meta, StdinError>(error)
                && *final(meta) == *old(meta),
        },
{
    if offset < meta.stdin_position {
        return Err(StdinError::EofBehind { offset, position: meta.stdin_position });
    }
    if let Some(existing) = meta.stdin_eof_at {
        if existing != offset {
            return Err(StdinError::AlreadyDeclared(existing));
        }
    } else {
        meta.stdin_eof_at = Some(offset);
    }
    if offset == meta.stdin_position {
        meta.stdin_eof = true;
        Ok(true)
    } else {
        Ok(false)
    }
}

/// Finds where a frame continues the input: the index of its first new byte, and
/// the position of that byte.
pub fn stdin_frame_start_locked(meta: &Meta, offset: u64, data_len: usize, nobuffer: bool) -> (r:
    Result<(usize, u64), StdinError>)
    ensures
        match r {
            Ok((start, position)) => meta.frame_start(offset, data_len as nat, nobuffer) == Ok::<
                (int, int),
                StdinError,
            >((start as int, position as int)) && start <= data_len,
            Err(error) => meta.frame_start(offset, data_len as nat, nobuffer) == Err::<
                (int, int),
                StdinError,
            >(error),
        },
{
    if meta.stdin_eof {
        return Err(StdinError::AfterEof);
    }
    let position: u64 = meta.stdin_position;
    if offset > position && !nobuffer {
        return Err(StdinError::Gap(position));
    }
    let behind: u64 = position.saturating_sub(offset);
    let start: usize = if behind >= data_len as u64 {
        data_len
    } else {
        behind as usize
    };
    let logical_position: u64 = if offset > position {
        offset
    } else {
        position
    };
    let remaining: usize = data_len - start;
    let frame_end: u64 = match logical_position.checked_add(remaining as u64) {
        Some(end) => end,
        None => {
            return Err(StdinError::Overflow);
        },
    };
    if let Some(eof) = meta.stdin_eof_at {
        if frame_end > eof {
            return Err(StdinError::BeyondDeclared);
        }
    }
    Ok((start, logical_position))
}

/// A session: its retained state, its attachment slot, and whether the
/// command's stdin is still open.
#[derive(Clone, Copy, Debug, PartialEq, Eq, Structural)]
pub struct Session {
    pub meta: Meta,
    pub attachment: AttachmentState,
    pub nobuffer: bool,
    pub stdin_open: bool,
}

/// What becomes of a frame's bytes at this moment.
#[derive(Clone, Copy, Debug, PartialEq, Eq, Structural)]
pub enum StdinPlan {
    /// The attachment no longer holds the session: nothing happens.
    Superseded,
    /// The command's stdin is gone: nothing happens.
    NoStdin,
    /// The frame has no bytes: the position becomes `position`, and is
    /// acknowledged.
    Empty { position: u64 },
    /// Every byte was accepted before: the position is acknowledged.
    Duplicate { position: u64 },
    /// The bytes from `start` on are offered to the command; the first of them
    /// has the absolute position `position`.
    Write { start: usize, position: u64 },
}

/// What the command's stdin did with offered bytes.
#[derive(Clone, Copy, Debug, PartialEq, Eq, Structural)]
pub struct StdinWritten {
    pub position: u64,
    pub reached_eof: bool,
}

impl Session {
    pub open spec fn valid(self) -> bool {
        self.meta.valid() && self.attachment.valid()
    }

    /// A session that has just started.
    pub open spec fn initial(nobuffer: bool) -> Session {
        Session {
            meta: Meta::initial(),
            attachment: AttachmentState { next_generation: 1, current: None },
            nobuffer,
            stdin_open: true,
        }
    }

    /// The session with other retained state, and with stdin closed if `closes`.
    pub open spec fn with_meta(self, meta: Meta, closes: bool) -> Session {
        Session { meta, stdin_open: self.stdin_open && !closes, ..self }
    }

    /// What the bytes of a frame come to.
    pub open spec fn planned(self, generation: u64, offset: u64, length: nat) -> Result<
        StdinPlan,
        StdinError,
    > {
        if !self.attachment.holds(generation) {
            Ok(StdinPlan::Superseded)
        } else {
            match self.meta.frame_start(offset, length, self.nobuffer) {
                Err(error) => Err(error),
                Ok((start, position)) => if length == 0 {
                    Ok(StdinPlan::Empty { position: position as u64 })
                } else if start >= length {
                    Ok(StdinPlan::Duplicate { position: self.meta.stdin_position })
                } else if !self.stdin_open {
                    Ok(StdinPlan::NoStdin)
                } else {
                    Ok(StdinPlan::Write { start: start as usize, position: position as u64 })
                },
            }
        }
    }

    /// The session after the command took `count` bytes at `position`.
    pub open spec fn took(self, position: u64, count: usize) -> Session {
        let meta = self.meta.advanced(position + count);
        self.with_meta(meta, meta.stdin_eof)
    }

    /// What an empty frame at `offset` leads to: the session after it, and the
    /// position that is acknowledged.
    pub open spec fn empty_accepted(self, generation: u64, offset: u64) -> Result<
        (Session, Option<u64>),
        StdinError,
    > {
        if !self.attachment.holds(generation) {
            Ok((self, None))
        } else {
            match self.meta.frame_start(offset, 0, self.nobuffer) {
                Err(error) => Err(error),
                Ok((_, position)) => {
                    let meta = self.meta.advanced(position);
                    Ok((self.with_meta(meta, meta.stdin_eof), Some(position as u64)))
                },
            }
        }
    }

    /// What an EOF frame leads to.
    pub open spec fn eof_accepted(self, generation: u64, offset: u64) -> Result<
        (Session, Option<u64>),
        StdinError,
    > {
        if !self.attachment.holds(generation) {
            Ok((self, None))
        } else {
            match self.meta.eof_declared(offset) {
                Err(error) => Err(error),
                Ok(meta) => Ok(
                    (
                        self.with_meta(meta, offset == self.meta.stdin_position),
                        Some(self.meta.stdin_position),
                    ),
                ),
            }
        }
    }

    pub fn new(nobuffer: bool) -> (r: Session)
        ensures
            r == Session::initial(nobuffer),
            r.valid(),
    {
        Session {
            meta: Meta::default(),
            attachment: AttachmentState::new(),
            nobuffer,
            stdin_open: true,
        }
    }

    /// Takes the attachment slot; see `AttachmentState::install`.
    pub fn install_attachment(&mut self, force: bool) -> (r: Option<AttachmentLease>)
        requires
            old(self).valid(),
            old(self).attachment.next_generation < u64::MAX,
        ensures
            final(self).valid(),
            match r {
                Some(lease) => {
                    &&& old(self).attachment.free(force)
                    &&& lease.generation == old(self).attachment.next_generation
                    &&& lease.displaced == old(self).attachment.current
                    &&& *final(self) == (Session {
                        attachment: old(self).attachment.installed(),
                        ..*old(self)
                    })
                },
                None => !old(self).attachment.free(force) && *final(self) == *old(self),
            },
    {
        self.attachment.install(force)
    }

    /// Gives the attachment slot up, if `generation` still holds it.
    pub fn compare_clear_attachment(&mut self, generation: u64)
        ensures
            *final(self) == (Session {
                attachment: old(self).attachment.cleared(generation),
                ..*old(self)
            }),
            old(self).valid() ==> final(self).valid(),
    {
        self.attachment.compare_clear(generation);
    }

    pub fn is_current_attachment(&self, generation: u64) -> (r: bool)
        ensures
            r == self.attachment.holds(generation),
    {
        self.attachment.is_current(generation)
    }

    /// Applies what an opening says about input. A superseded opening changes
    /// nothing, and a refused one changes nothing either. `true` means that the
    /// command's stdin is at its end.
    pub fn apply_opening_stdin(
        &mut self,
        generation: u64,
        stdin_start: u64,
        stdin_eof: Option<u64>,
    ) -> (r: Result<bool, StdinError>)
        requires
            old(self).valid(),
        ensures
            final(self).valid(),
            match r {
                Ok(closes) => if old(self).attachment.holds(generation) {
                    &&& old(self).meta.opened(stdin_start, stdin_eof, old(self).nobuffer) == Ok::<
                        Meta,
                        StdinError,
                    >(final(self).meta)
                    &&& closes == final(self).meta.stdin_eof
                    &&& *final(self) == old(self).with_meta(final(self).meta, closes)
                } else {
                    !closes && *final(self) == *old(self)
                },
                Err(error) => {
                    &&& old(self).attachment.holds(generation)
                    &&& old(self).meta.opened(stdin_start, stdin_eof, old(self).nobuffer) == Err::<
                        Meta,
                        StdinError,
                    >(error)
                    &&& *final(self) == *old(self)
                },
            },
    {
        if !self.attachment.is_current(generation) {
            return Ok(false);
        }
        let mut new_position: u64 = self.meta.stdin_position;
        if stdin_start > new_position {
            if self.meta.stdin_eof {
                return Err(StdinError::StartBeyondEof);
            }
            if !self.nobuffer {
                return Err(StdinError::OpeningGap(new_position));
            }
            if let Some(eof) = self.meta.stdin_eof_at {
                if stdin_start > eof {
                    return Err(StdinError::StartBeyondDeclared);
                }
            }
            new_position = stdin_start;
        }
        if let Some(requested) = stdin_eof {
            if let Some(existing) = self.meta.stdin_eof_at {
                if existing != requested {
                    return Err(StdinError::AlreadyDeclared(existing));
                }
            }
        }
        let effective_eof = match stdin_eof {
            Some(offset) => Some(offset),
            None => self.meta.stdin_eof_at,
        };
        if let Some(offset) = effective_eof {
            if offset < new_position {
                return Err(StdinError::EofBehind { offset, position: new_position });
            }
        }
        self.meta.stdin_position = new_position;
        self.meta.stdin_eof_at = effective_eof;
        let closes = match effective_eof {
            Some(offset) => offset == new_position,
            None => false,
        };
        if closes {
            self.meta.stdin_eof = true;
            self.stdin_open = false;
        }
        Ok(closes)
    }

    /// Records that input ends at `offset`, for a control request: no
    /// attachment is needed.
    pub fn declare_stdin_eof(&mut self, offset: u64) -> (r: Result<bool, StdinError>)
        requires
            old(self).valid(),
        ensures
            final(self).valid(),
            match r {
                Ok(closes) => {
                    &&& old(self).meta.eof_declared(offset) == Ok::<Meta, StdinError>(
                        final(self).meta,
                    )
                    &&& closes == (offset == old(self).meta.stdin_position)
                    &&& *final(self) == old(self).with_meta(final(self).meta, closes)
                },
                Err(error) => {
                    &&& old(self).meta.eof_declared(offset) == Err::<Meta, StdinError>(error)
                    &&& *final(self) == *old(self)
                },
            },
    {
        match declare_stdin_eof_locked(&mut self.meta, offset) {
            Ok(closes) => {
                if closes {
                    self.stdin_open = false;
                }
                Ok(closes)
            },
            Err(error) => Err(error),
        }
    }

    /// Decides what becomes of a frame's bytes right now.
    pub fn plan_stdin(&self, generation: u64, offset: u64, data_len: usize) -> (r: Result<
        StdinPlan,
        StdinError,
    >)
        requires
            self.valid(),
        ensures
            r == self.planned(generation, offset, data_len as nat),
    {
        if !self.attachment.is_current(generation) {
            return Ok(StdinPlan::Superseded);
        }
        let (start, position) = match stdin_frame_start_locked(
            &self.meta,
            offset,
            data_len,
            self.nobuffer,
        ) {
            Ok(plan) => plan,
            Err(error) => {
                return Err(error);
            },
        };
        if data_len == 0 {
            return Ok(StdinPlan::Empty { position });
        }
        if start >= data_len {
            return Ok(StdinPlan::Duplicate { position: self.meta.stdin_position });
        }
        if !self.stdin_open {
            return Ok(StdinPlan::NoStdin);
        }
        Ok(StdinPlan::Write { start, position })
    }

    /// Records that the command took `count` of the bytes that a plan offered.
    /// Nothing may come between the plan, the write and this record.
    fn wrote_stdin(&mut self, position: u64, count: usize) -> (r: StdinWritten)
        requires
            old(self).valid(),
            !old(self).meta.stdin_eof,
            old(self).meta.stdin_position <= position,
            position + count <= u64::MAX,
            old(self).meta.stdin_eof_at is Some ==> position + count <= old(
                self,
            ).meta.stdin_eof_at->0,
        ensures
            *final(self) == old(self).took(position, count),
            r.position == position + count,
            r.reached_eof == final(self).meta.stdin_eof,
            final(self).valid(),
    {
        let reached: u64 = position + count as u64;
        self.meta.stdin_position = reached;
        let reached_eof = match self.meta.stdin_eof_at {
            Some(eof) => eof == reached,
            None => false,
        };
        if reached_eof {
            self.meta.stdin_eof = true;
            self.stdin_open = false;
        }
        StdinWritten { position: reached, reached_eof }
    }

    /// Accepts an EOF frame. The result is the position to acknowledge.
    pub fn accept_stdin_eof(&mut self, generation: u64, offset: u64) -> (r: Result<
        Option<u64>,
        StdinError,
    >)
        requires
            old(self).valid(),
        ensures
            final(self).valid(),
            match r {
                Ok(acknowledged) => old(self).eof_accepted(generation, offset) == Ok::<
                    (Session, Option<u64>),
                    StdinError,
                >((*final(self), acknowledged)),
                Err(error) => old(self).eof_accepted(generation, offset) == Err::<
                    (Session, Option<u64>),
                    StdinError,
                >(error) && *final(self) == *old(self),
            },
    {
        if !self.attachment.is_current(generation) {
            return Ok(None);
        }
        let position: u64 = self.meta.stdin_position;
        match self.declare_stdin_eof(offset) {
            Ok(_) => Ok(Some(position)),
            Err(error) => Err(error),
        }
    }
}

/// What came of a frame's bytes.
#[derive(Clone, Debug)]
pub struct StdinReport {
    /// The positions to acknowledge, in order.
    pub acknowledgements: Vec<u64>,
    /// The bytes that the command took.
    pub written: Vec<u8>,
    /// Whether the frame is done with, or waits for room in the pipe.
    pub done: bool,
}

/// What came of a frame's bytes.
pub struct StdinResult {
    pub session: Session,
    pub acknowledgements: Seq<u64>,
    pub written: Seq<u8>,
    pub outcome: Result<bool, StdinError>,
}

/// How many of `offered` bytes fit into a pipe with room for `room`.
pub open spec fn fits(room: usize, offered: int) -> int {
    if room <= offered {
        room as int
    } else {
        offered
    }
}

impl Session {
    /// What comes of a frame's bytes while the command's stdin has, one after
    /// the other, room for as many bytes as `rooms` says. Room for no byte means
    /// that the command closed its stdin.
    pub open spec fn accepted(
        self,
        generation: u64,
        offset: u64,
        data: Seq<u8>,
        rooms: Seq<usize>,
    ) -> StdinResult
        decreases rooms.len(),
    {
        let nothing = StdinResult {
            session: self,
            acknowledgements: Seq::empty(),
            written: Seq::empty(),
            outcome: Ok(true),
        };
        match self.planned(generation, offset, data.len()) {
            Err(error) => StdinResult { outcome: Err(error), ..nothing },
            Ok(StdinPlan::Superseded) => nothing,
            Ok(StdinPlan::NoStdin) => nothing,
            Ok(StdinPlan::Empty { position }) => StdinResult {
                session: self.took(position, 0),
                acknowledgements: seq![position],
                ..nothing
            },
            Ok(StdinPlan::Duplicate { position }) => StdinResult {
                acknowledgements: seq![position],
                ..nothing
            },
            Ok(StdinPlan::Write { start, position }) => if rooms.len() == 0 {
                StdinResult { outcome: Ok(false), ..nothing }
            } else if rooms[0] == 0 {
                StdinResult { outcome: Err(StdinError::PipeClosed), ..nothing }
            } else {
                let count = fits(rooms[0], data.len() - start);
                let after = self.took(position, count as usize);
                let taken = data.subrange(start as int, start + count);
                if after.meta.stdin_eof {
                    StdinResult {
                        session: after,
                        acknowledgements: seq![(position + count) as u64],
                        written: taken,
                        outcome: Ok(true),
                    }
                } else {
                    let later = after.accepted(generation, offset, data, rooms.drop_first());
                    StdinResult {
                        session: later.session,
                        acknowledgements: seq![(position + count) as u64] + later.acknowledgements,
                        written: taken + later.written,
                        outcome: later.outcome,
                    }
                }
            },
        }
    }

    /// Accepts a frame without bytes. Without buffering it can move the position
    /// forward.
    fn accept_empty_stdin(&mut self, generation: u64, offset: u64) -> (r: (
        StdinReport,
        Option<StdinError>,
    ))
        requires
            old(self).valid(),
        ensures
            final(self).valid(),
            r.0.written@.len() == 0,
            r.0.done,
            match old(self).empty_accepted(generation, offset) {
                Ok((session, acknowledged)) => {
                    &&& *final(self) == session
                    &&& r.0.acknowledgements@ == (match acknowledged {
                        Some(position) => seq![position],
                        None => Seq::empty(),
                    })
                    &&& r.1 is None
                },
                Err(error) => {
                    &&& *final(self) == *old(self)
                    &&& r.0.acknowledgements@.len() == 0
                    &&& r.1 == Some(error)
                },
            },
    {
        let mut report = StdinReport {
            acknowledgements: Vec::new(),
            written: Vec::new(),
            done: true,
        };
        match self.plan_stdin(generation, offset, 0) {
            Ok(StdinPlan::Empty { position }) => {
                let written = self.wrote_stdin(position, 0);
                report.acknowledgements.push(written.position);
                (report, None)
            },
            Ok(_) => (report, None),
            Err(error) => (report, Some(error)),
        }
    }

    /// Gives the command as many of the bytes from `start` on as there is room
    /// for, and reports them.
    fn write_stdin(
        &mut self,
        data: &[u8],
        start: usize,
        position: u64,
        room: usize,
        report: &mut StdinReport,
    ) -> (r: StdinWritten)
        requires
            old(self).valid(),
            !old(self).meta.stdin_eof,
            old(self).meta.stdin_position <= position,
            start <= data@.len(),
            position + (data@.len() - start) <= u64::MAX,
            old(self).meta.stdin_eof_at is Some ==> position + (data@.len() - start) <= old(
                self,
            ).meta.stdin_eof_at->0,
        ensures
            ({
                let count = fits(room, data@.len() - start);
                &&& *final(self) == old(self).took(position, count as usize)
                &&& r.position == position + count
                &&& r.reached_eof == final(self).meta.stdin_eof
                &&& final(report).written@ == old(report).written@ + data@.subrange(
                    start as int,
                    start + count,
                )
            }),
            final(self).valid(),
            final(report).acknowledgements@ == old(report).acknowledgements@ + seq![r.position],
            final(report).done == old(report).done,
    {
        let count: usize = if room <= data.len() - start {
            room
        } else {
            data.len() - start
        };
        let written = self.wrote_stdin(position, count);
        report.acknowledgements.push(written.position);
        let taken = bytes_range(data, start, start + count);
        report.written.extend_from_slice(taken.as_slice());
        proof {
            assert(report.acknowledgements@ =~= old(report).acknowledgements@ + seq![
                written.position,
            ]);
            assert(report.written@ =~= old(report).written@ + taken@);
        }
        written
    }

    /// Accepts a frame's bytes as far as the command takes them. `rooms` is how
    /// many bytes the command's stdin had room for at each write, in order;
    /// none means that it was closed. When it runs out before the frame does,
    /// the frame waits. Each write is planned afresh, so that an attachment
    /// that lost the session writes nothing more.
    #[verifier::rlimit(30)]
    pub fn accept_stdin(
        &mut self,
        generation: u64,
        offset: u64,
        data: &[u8],
        rooms: &[usize],
    ) -> (r: (StdinReport, Option<StdinError>))
        requires
            old(self).valid(),
        ensures
            final(self).valid(),
            ({
                let expected = old(self).accepted(generation, offset, data@, rooms@);
                &&& *final(self) == expected.session
                &&& r.0.acknowledgements@ == expected.acknowledgements
                &&& r.0.written@ == expected.written
                &&& match expected.outcome {
                    Ok(done) => r.1 is None && r.0.done == done,
                    Err(error) => r.1 == Some(error) && r.0.done,
                }
            }),
            data@.len() == 0 ==> match old(self).empty_accepted(generation, offset) {
                Ok((session, acknowledged)) => {
                    &&& *final(self) == session
                    &&& r.0.acknowledgements@ == (match acknowledged {
                        Some(position) => seq![position],
                        None => Seq::empty(),
                    })
                    &&& r.1 is None
                },
                Err(error) => *final(self) == *old(self) && r.1 == Some(error),
            },
    {
        if data.len() == 0 {
            return self.accept_empty_stdin(generation, offset);
        }
        let mut report = StdinReport {
            acknowledgements: Vec::new(),
            written: Vec::new(),
            done: true,
        };
        let ghost expected = self.accepted(generation, offset, data@, rooms@);
        let mut next: usize = 0;
        proof {
            assert(rooms@.skip(0) =~= rooms@);
            assert(Seq::<u64>::empty() + expected.acknowledgements =~= expected.acknowledgements);
            assert(Seq::<u8>::empty() + expected.written =~= expected.written);
        }
        loop
            invariant
                self.valid(),
                expected == old(self).accepted(generation, offset, data@, rooms@),
                next <= rooms@.len(),
                data@.len() > 0,
                report.done,
                ({
                    let later = self.accepted(generation, offset, data@, rooms@.skip(next as int));
                    &&& expected.session == later.session
                    &&& expected.acknowledgements == report.acknowledgements@
                        + later.acknowledgements
                    &&& expected.written == report.written@ + later.written
                    &&& expected.outcome == later.outcome
                }),
            decreases rooms@.len() - next,
        {
            proof {
                assert(report.acknowledgements@ + Seq::<u64>::empty() =~= report.acknowledgements@);
                assert(report.written@ + Seq::<u8>::empty() =~= report.written@);
            }
            let plan = match self.plan_stdin(generation, offset, data.len()) {
                Ok(plan) => plan,
                Err(error) => {
                    return (report, Some(error));
                },
            };
            match plan {
                StdinPlan::Superseded | StdinPlan::NoStdin | StdinPlan::Empty { .. } => {
                    return (report, None);
                },
                StdinPlan::Duplicate { position } => {
                    let ghost acknowledged = report.acknowledgements@;
                    report.acknowledgements.push(position);
                    assert(report.acknowledgements@ =~= acknowledged + seq![position]);
                    return (report, None);
                },
                StdinPlan::Write { start, position } => {
                    if next == rooms.len() {
                        report.done = false;
                        return (report, None);
                    }
                    let room: usize = rooms[next];
                    if room == 0 {
                        return (report, Some(StdinError::PipeClosed));
                    }
                    proof {
                        assert(rooms@.skip(next as int)[0] == room);
                        assert(rooms@.skip(next as int).drop_first() =~= rooms@.skip(next + 1));
                    }
                    let ghost acknowledged = report.acknowledgements@;
                    let ghost before = report.written@;
                    let written = self.write_stdin(data, start, position, room, &mut report);
                    next += 1;
                    if written.reached_eof {
                        return (report, None);
                    }
                    proof {
                        let later = self.accepted(
                            generation,
                            offset,
                            data@,
                            rooms@.skip(next as int),
                        );
                        let taken = data@.subrange(
                            start as int,
                            start + fits(room, data@.len() - start),
                        );
                        assert(acknowledged + (seq![written.position] + later.acknowledgements)
                            =~= report.acknowledgements@ + later.acknowledgements);
                        assert(before + (taken + later.written) =~= report.written@
                            + later.written);
                    }
                },
            }
        }
    }
}

/// The bytes that a frame gives to the command are exactly those between the
/// position before it and the position after it: a byte that was accepted
/// before is never written again, bytes are written in order, and a buffered
/// session never skips one. A frame without bytes writes nothing, and moves the
/// position only without buffering, and only to its own.
pub proof fn stdin_is_never_repeated(
    session: Session,
    generation: u64,
    offset: u64,
    data: Seq<u8>,
    rooms: Seq<usize>,
)
    requires
        session.valid(),
        data.len() <= usize::MAX,
    ensures
        ({
            let result = session.accepted(generation, offset, data, rooms);
            let before = session.meta.stdin_position;
            let after = result.session.meta.stdin_position;
            let from = if offset > before {
                offset
            } else {
                before
            };
            &&& before <= after
            &&& result.session.valid()
            &&& result.written.len() > 0 ==> {
                &&& from <= after
                &&& after - offset <= data.len()
                &&& result.written == data.subrange(from - offset, after - offset)
                &&& !session.nobuffer ==> from == before
            }
            &&& result.written.len() == 0 && data.len() > 0 ==> result.session == session
            &&& data.len() == 0 ==> {
                &&& result.written.len() == 0
                &&& result.session == session || result.session == session.took(from, 0)
                &&& !session.nobuffer ==> after == before
            }
        }),
    decreases rooms.len(),
{
    if let Ok(StdinPlan::Write { start, position }) = session.planned(
        generation,
        offset,
        data.len(),
    ) {
        if rooms.len() > 0 && rooms[0] != 0 {
            let count = fits(rooms[0], data.len() - start);
            let after = session.took(position, count as usize);
            let taken = data.subrange(start as int, start + count);
            if !after.meta.stdin_eof {
                stdin_is_never_repeated(after, generation, offset, data, rooms.drop_first());
                let later = after.accepted(generation, offset, data, rooms.drop_first());
                if later.written.len() > 0 {
                    assert(taken + later.written =~= data.subrange(
                        start as int,
                        later.session.meta.stdin_position - offset,
                    ));
                } else {
                    assert(taken + later.written =~= taken);
                }
            }
        }
    }
}

/// The positions that are acknowledged for a frame never go back, and none is
/// beyond what the command took.
pub proof fn receipts_never_go_back(
    session: Session,
    generation: u64,
    offset: u64,
    data: Seq<u8>,
    rooms: Seq<usize>,
)
    requires
        session.valid(),
        data.len() <= usize::MAX,
    ensures
        ({
            let result = session.accepted(generation, offset, data, rooms);
            let receipts = result.acknowledgements;
            &&& forall|i: int|
                0 <= i < receipts.len() ==> session.meta.stdin_position <= #[trigger] receipts[i]
                    <= result.session.meta.stdin_position
            &&& forall|i: int, j: int|
                0 <= i <= j < receipts.len() ==> #[trigger] receipts[i] <= #[trigger] receipts[j]
        }),
    decreases rooms.len(),
{
    if let Ok(StdinPlan::Write { start, position }) = session.planned(
        generation,
        offset,
        data.len(),
    ) {
        if rooms.len() > 0 && rooms[0] != 0 {
            let count = fits(rooms[0], data.len() - start);
            let after = session.took(position, count as usize);
            if !after.meta.stdin_eof {
                receipts_never_go_back(after, generation, offset, data, rooms.drop_first());
                stdin_is_never_repeated(after, generation, offset, data, rooms.drop_first());
                let later = after.accepted(generation, offset, data, rooms.drop_first());
                let receipts = session.accepted(generation, offset, data, rooms).acknowledgements;
                assert(receipts =~= seq![(position + count) as u64] + later.acknowledgements);
                assert forall|i: int| 1 <= i < receipts.len() implies #[trigger] receipts[i]
                    == later.acknowledgements[i - 1] by {}
            }
        }
    }
}

/// No operation moves a position of a session back: not input, not an opening,
/// not a declared end, not output.
pub proof fn positions_never_move_back(
    session: Session,
    generation: u64,
    offset: u64,
    data: Seq<u8>,
    rooms: Seq<usize>,
    eof: Option<u64>,
    stream: Stream,
    count: nat,
)
    requires
        session.valid(),
        data.len() <= usize::MAX,
        session.meta.end(stream) + count <= u64::MAX,
    ensures
        ({
            let meta = session.meta;
            let position = meta.stdin_position;
            &&& session.accepted(generation, offset, data, rooms).session.meta.stdin_position
                >= position
            &&& session.empty_accepted(generation, offset) matches Ok((after, _))
                ==> after.meta.stdin_position >= position
            &&& session.eof_accepted(generation, offset) matches Ok((after, _))
                ==> after.meta.stdin_position == position
            &&& meta.opened(offset, eof, session.nobuffer) matches Ok(after)
                ==> after.stdin_position >= position
            &&& meta.eof_declared(offset) matches Ok(after) ==> after.stdin_position == position
            &&& meta.with_bytes(stream, count as int).stdout_end >= meta.stdout_end
            &&& meta.with_bytes(stream, count as int).stderr_end >= meta.stderr_end
        }),
{
    stdin_is_never_repeated(session, generation, offset, data, rooms);
}

/// A data frame as it reaches a session: who holds the session by then, the
/// attachment that sends it, its position and its bytes, and how much room the
/// command's stdin has for them.
pub struct InputFrame {
    pub attachment: AttachmentState,
    pub generation: u64,
    pub offset: u64,
    pub data: Seq<u8>,
    pub rooms: Seq<usize>,
}

impl InputFrame {
    /// Whether the frame carries bytes of `input` at their own position.
    pub open spec fn is_of(self, input: Seq<u8>) -> bool {
        &&& self.attachment.valid()
        &&& self.data.len() <= usize::MAX
        &&& self.offset + self.data.len() <= input.len()
        &&& self.data == input.subrange(self.offset as int, self.offset + self.data.len())
    }
}

/// The session after a run of frames, and what the command took of them.
pub open spec fn fed(session: Session, frames: Seq<InputFrame>) -> (Session, Seq<u8>)
    decreases frames.len(),
{
    if frames.len() == 0 {
        (session, Seq::empty())
    } else {
        let (before, taken) = fed(session, frames.drop_last());
        let frame = frames.last();
        let held = Session { attachment: frame.attachment, ..before };
        let result = held.accepted(frame.generation, frame.offset, frame.data, frame.rooms);
        (result.session, taken + result.written)
    }
}

/// However often attachments change and replay, the command of a buffered
/// session gets of its input exactly the bytes between the first position and
/// the last, in order: none is missing and none comes twice.
pub proof fn input_arrives_once(session: Session, frames: Seq<InputFrame>, input: Seq<u8>)
    requires
        session.valid(),
        !session.nobuffer,
        session.meta.stdin_position <= input.len(),
        forall|i: int| 0 <= i < frames.len() ==> (#[trigger] frames[i]).is_of(input),
    ensures
        ({
            let (after, taken) = fed(session, frames);
            &&& after.valid()
            &&& !after.nobuffer
            &&& session.meta.stdin_position <= after.meta.stdin_position <= input.len()
            &&& taken == input.subrange(
                session.meta.stdin_position as int,
                after.meta.stdin_position as int,
            )
        }),
    decreases frames.len(),
{
    let first = session.meta.stdin_position as int;
    if frames.len() == 0 {
        assert(input.subrange(first, first) =~= Seq::empty());
    } else {
        let earlier = frames.drop_last();
        let frame = frames.last();
        assert(frame == frames[frames.len() - 1]);
        assert forall|i: int| 0 <= i < earlier.len() implies (#[trigger] earlier[i]).is_of(
            input,
        ) by {
            assert(earlier[i] == frames[i]);
        }
        input_arrives_once(session, earlier, input);
        let (before, taken) = fed(session, earlier);
        let held = Session { attachment: frame.attachment, ..before };
        stdin_is_never_repeated(held, frame.generation, frame.offset, frame.data, frame.rooms);
        accepting_keeps_buffering(held, frame.generation, frame.offset, frame.data, frame.rooms);
        let result = held.accepted(frame.generation, frame.offset, frame.data, frame.rooms);
        let middle = before.meta.stdin_position as int;
        let last = result.session.meta.stdin_position as int;
        assert(result.written =~= input.subrange(middle, last));
        assert(taken + result.written =~= input.subrange(first, last));
    }
}

proof fn accepting_keeps_buffering(
    session: Session,
    generation: u64,
    offset: u64,
    data: Seq<u8>,
    rooms: Seq<usize>,
)
    ensures
        session.accepted(generation, offset, data, rooms).session.nobuffer == session.nobuffer,
    decreases rooms.len(),
{
    if let Ok(StdinPlan::Write { start, position }) = session.planned(
        generation,
        offset,
        data.len(),
    ) {
        if rooms.len() > 0 && rooms[0] != 0 {
            let count = fits(rooms[0], data.len() - start);
            accepting_keeps_buffering(
                session.took(position, count as usize),
                generation,
                offset,
                data,
                rooms.drop_first(),
            );
        }
    }
}

/// An attachment that lost the session changes nothing: not by data, not by an
/// EOF frame, not by its opening.
pub proof fn superseded_changes_nothing(
    session: Session,
    generation: u64,
    offset: u64,
    data: Seq<u8>,
    rooms: Seq<usize>,
)
    requires
        !session.attachment.holds(generation),
    ensures
        ({
            let result = session.accepted(generation, offset, data, rooms);
            &&& result.session == session
            &&& result.written =~= Seq::<u8>::empty()
            &&& result.acknowledgements =~= Seq::<u64>::empty()
        }),
        session.empty_accepted(generation, offset) == Ok::<(Session, Option<u64>), StdinError>(
            (session, None),
        ),
        session.eof_accepted(generation, offset) == Ok::<(Session, Option<u64>), StdinError>(
            (session, None),
        ),
{
}

/// A declared end of input is sticky: declaring the same end again is accepted
/// and changes nothing more, another end is refused, and neither openings nor
/// input move it.
pub proof fn declared_eof_is_sticky(
    meta: Meta,
    end: u64,
    other: u64,
    start: u64,
    eof: Option<u64>,
    nobuffer: bool,
    position: int,
)
    requires
        meta.valid(),
        meta.stdin_eof_at == Some(end),
    ensures
        meta.eof_declared(end) is Ok,
        meta.eof_declared(end)->Ok_0.stdin_eof_at == Some(end),
        meta.eof_declared(end)->Ok_0.eof_declared(end) == meta.eof_declared(end),
        other != end ==> meta.eof_declared(other) is Err,
        meta.opened(start, eof, nobuffer) is Ok ==> meta.opened(
            start,
            eof,
            nobuffer,
        )->Ok_0.stdin_eof_at == Some(end),
        meta.advanced(position).stdin_eof_at == Some(end),
{
}

/// Once EOF is reached nothing more is accepted and the position stays.
pub proof fn input_never_reopens(
    session: Session,
    generation: u64,
    offset: u64,
    data: Seq<u8>,
    rooms: Seq<usize>,
)
    requires
        session.valid(),
        session.meta.stdin_eof,
    ensures
        session.accepted(generation, offset, data, rooms).session == session,
        session.accepted(generation, offset, data, rooms).written =~= Seq::<u8>::empty(),
        session.attachment.holds(generation) ==> session.accepted(generation, offset, data, rooms)
            .outcome is Err,
{
}

/// Which filesystem operations are outstanding: the write of each stream and
/// the replay read. Each pins the session until it returns.
#[derive(Clone, Copy, Debug, PartialEq, Eq, Structural)]
pub struct IoPins {
    pub stdout: bool,
    pub stderr: bool,
    pub replay: bool,
}

impl IoPins {
    pub open spec fn count(self) -> int {
        (if self.stdout {
            1int
        } else {
            0
        }) + (if self.stderr {
            1int
        } else {
            0
        }) + (if self.replay {
            1int
        } else {
            0
        })
    }

    pub open spec fn of(self, stream: Stream) -> bool {
        match stream {
            Stream::Stdout => self.stdout,
            Stream::Stderr => self.stderr,
        }
    }

    pub open spec fn with(self, stream: Stream, held: bool) -> IoPins {
        match stream {
            Stream::Stdout => IoPins { stdout: held, ..self },
            Stream::Stderr => IoPins { stderr: held, ..self },
        }
    }
}

/// The longest grace or settlement period of an opted-in session.
pub const MAX_PERIOD: u128 = 86_400_000_000_000;

/// The latest time that the clock can show.
pub const MAX_CLOCK: u128 = 0x7fff_ffff_ffff_ffff_ffff_ffff_ffff_ffff;

/// The broker of one session: its retained state, its cancellation operation if
/// the session opted in to one, and the work that pins it.
pub struct Broker<H: GroupSignal> {
    pub session: Session,
    pub cancellation: Option<Cancellation<H>>,
    pub failure: Option<String>,
    pub pins: IoPins,
    pub grace: u128,
    pub settlement: u128,
    pub connections: u64,
}

impl<H: GroupSignal> Broker<H> {
    /// The state of the cancellation operation.
    pub open spec fn control(self) -> CancellationView {
        self.cancellation->0@
    }

    /// The retained facts of a bounded session.
    pub open spec fn policy(self) -> OutputFact {
        self.session.meta.output->0
    }

    /// Whether the session has finite output.
    pub open spec fn is_bounded(self) -> bool {
        self.session.meta.output is Some
    }

    /// What holds of every broker.
    pub open spec fn valid(self) -> bool {
        &&& self.session.valid()
        &&& self.grace <= MAX_PERIOD
        &&& self.settlement <= MAX_PERIOD
        &&& self.cancellation is Some ==> self.control().valid()
        &&& self.is_bounded() ==> {
            &&& self.cancellation is Some
            &&& !self.session.nobuffer
            &&& self.policy().keeps_books(self.pins)
            &&& self.session.meta.stdout_end == self.policy().stdout.retained
            &&& self.session.meta.stderr_end == self.policy().stderr.retained
        }
    }

    /// Whether this is `before` with other retained state, control and pins. The
    /// group's handle was not used.
    pub open spec fn became(
        self,
        before: Broker<H>,
        meta: Meta,
        control: CancellationView,
        pins: IoPins,
    ) -> bool {
        &&& self.session == (Session { meta, ..before.session })
        &&& self.cancellation is Some
        &&& self.control() == control
        &&& self.cancellation->0.handle == before.cancellation->0.handle
        &&& self.failure == before.failure
        &&& self.pins == pins
        &&& self.grace == before.grace
        &&& self.settlement == before.settlement
        &&& self.connections == before.connections
    }

    /// The control after the broker made sure that its operation has begun.
    pub open spec fn control_started(self, now: u128) -> CancellationView {
        self.control().started(now, self.grace, self.settlement)
    }
}

/// An exit is told only once both output streams are closed, and then it is the
/// one that was recorded.
pub proof fn exits_are_told_after_output(meta: Meta, terminal: bool, exit: Option<ExitResult>)
    requires
        call_ensures(Meta::terminal, (&meta,), terminal),
        call_ensures(Meta::terminal_exit, (&meta,), exit),
    ensures
        terminal <==> meta.status is Some && meta.stdout_closed && meta.stderr_closed,
        exit is Some <==> meta.status is Some && meta.stdout_closed && meta.stderr_closed,
        exit is Some ==> exit == meta.status,
{
}

/// An end of input is taken exactly if it is not behind what was accepted and is
/// not another than the one declared before. It then is the declared end; input
/// has ended once that end is reached, and only then is stdin closed.
pub proof fn ends_of_input_are_declared_once(
    session: &mut Session,
    offset: u64,
    r: Result<bool, StdinError>,
)
    requires
        old(session).valid(),
        call_ensures(Session::declare_stdin_eof, (session, offset), r),
    ensures
        ({
            let before = old(session).meta;
            let after = final(session).meta;
            &&& r is Ok <==> offset >= before.stdin_position && (before.stdin_eof_at is None
                || before.stdin_eof_at == Some(offset))
            &&& r is Err ==> *final(session) == *old(session)
            &&& r is Err && offset < before.stdin_position ==> r->Err_0 is EofBehind
            &&& r is Err && offset >= before.stdin_position ==> r->Err_0
                == StdinError::AlreadyDeclared(before.stdin_eof_at->0)
            &&& r matches Ok(closes) ==> {
                &&& after.stdin_eof_at == Some(offset)
                &&& after.stdin_eof <==> before.stdin_eof || offset == before.stdin_position
                &&& closes <==> offset == before.stdin_position
                &&& final(session).stdin_open <==> old(session).stdin_open && !closes
            }
            &&& after.stdin_position == before.stdin_position
            &&& after.stdout_end == before.stdout_end && after.stderr_end == before.stderr_end
            &&& after.status == before.status
            &&& final(session).attachment == old(session).attachment
        }),
{
}

/// An end-of-input frame of the holder does what declaring the end does, and
/// acknowledges what was accepted; one of anybody else does nothing.
pub proof fn end_frames_come_from_the_holder(
    session: &mut Session,
    generation: u64,
    offset: u64,
    r: Result<Option<u64>, StdinError>,
)
    requires
        old(session).valid(),
        call_ensures(Session::accept_stdin_eof, (session, generation, offset), r),
    ensures
        ({
            let before = old(session).meta;
            let after = final(session).meta;
            let holder = old(session).attachment.current == Some(generation);
            &&& !holder ==> *final(session) == *old(session) && r is Ok && r->Ok_0 is None
            &&& holder ==> (r is Ok <==> offset >= before.stdin_position && (before.stdin_eof_at
                is None || before.stdin_eof_at == Some(offset)))
            &&& holder && r is Ok ==> {
                &&& r->Ok_0 == Some(before.stdin_position)
                &&& after.stdin_eof_at == Some(offset)
                &&& after.stdin_position == before.stdin_position
                &&& after.stdin_eof <==> before.stdin_eof || offset == before.stdin_position
                &&& offset == before.stdin_position ==> !final(session).stdin_open
                &&& offset > before.stdin_position
                    ==> final(session).stdin_open == old(session).stdin_open
            }
            &&& r is Err ==> *final(session) == *old(session)
        }),
{
}

/// What an opening says about input is accepted exactly if it retains input from
/// where the session stands, or buffering is off and nothing declared is passed;
/// if it names no other end than the one declared; and if that end is not behind
/// it. The position only moves forward, to where retained input begins, and stdin
/// is closed exactly where the end is reached.
pub proof fn openings_agree_about_input(
    session: &mut Session,
    generation: u64,
    start: u64,
    eof: Option<u64>,
    r: Result<bool, StdinError>,
)
    requires
        old(session).valid(),
        call_ensures(Session::apply_opening_stdin, (session, generation, start, eof), r),
    ensures
        ({
            let before = old(session).meta;
            let after = final(session).meta;
            let holder = old(session).attachment.current == Some(generation);
            let reaches = start <= before.stdin_position || (!before.stdin_eof && old(session).nobuffer && (before.stdin_eof_at is None || start <= before.stdin_eof_at->0));
            let same_end = eof is None || before.stdin_eof_at is None || eof == before.stdin_eof_at;
            let position = if start > before.stdin_position {
                start
            } else {
                before.stdin_position
            };
            let not_behind = (eof is None || eof->0 >= position) && (before.stdin_eof_at is None
                || before.stdin_eof_at->0 >= position);
            &&& !holder ==> r == Ok::<bool, StdinError>(false) && *final(session) == *old(session)
            &&& holder ==> (r is Ok <==> reaches && same_end && not_behind)
            &&& r is Err ==> *final(session) == *old(session)
            &&& holder && r is Ok ==> {
                &&& after.stdin_position == position
                &&& eof is Some ==> after.stdin_eof_at == eof
                &&& eof is None ==> after.stdin_eof_at == before.stdin_eof_at
                &&& r->Ok_0 <==> after.stdin_eof_at == Some(position)
                &&& after.stdin_eof <==> after.stdin_eof_at == Some(position)
                &&& final(session).stdin_open <==> old(session).stdin_open && after.stdin_eof_at
                    != Some(position)
            }
            &&& r is Err && start > before.stdin_position && before.stdin_eof
                ==> r->Err_0 is StartBeyondEof
            &&& r is Err && start > before.stdin_position && !before.stdin_eof
                && !old(session).nobuffer
                ==> r->Err_0 == StdinError::OpeningGap(before.stdin_position)
            &&& r is Err && reaches && !same_end ==> r->Err_0 == StdinError::AlreadyDeclared(
                before.stdin_eof_at->0,
            )
            &&& r is Err && reaches && same_end ==> r->Err_0 is EofBehind
            &&& after.stdout_end == before.stdout_end && after.stderr_end == before.stderr_end
            &&& after.status == before.status
            &&& final(session).attachment == old(session).attachment
            &&& final(session).nobuffer == old(session).nobuffer
        }),
{
}

/// Where a frame continues the input: its new bytes begin at the position of the
/// session, unless buffering is off and the frame begins behind it. Frames after
/// the end, behind a gap or beyond the declared end are refused.
pub proof fn frames_continue_the_input(
    session: Session,
    generation: u64,
    offset: u64,
    length: usize,
    r: Result<StdinPlan, StdinError>,
)
    requires
        session.valid(),
        call_ensures(Session::plan_stdin, (&session, generation, offset, length), r),
    ensures
        ({
            let meta = session.meta;
            let holder = session.attachment.current == Some(generation);
            let end = offset + length;
            let gap = offset > meta.stdin_position && !session.nobuffer;
            let new_end = if end > meta.stdin_position {
                end
            } else {
                meta.stdin_position as int
            };
            let beyond = meta.stdin_eof_at is Some && new_end > meta.stdin_eof_at->0;
            &&& (r is Ok && r->Ok_0 is Superseded) <==> !holder
            &&& holder ==> (r is Err <==> meta.stdin_eof || gap || new_end > u64::MAX || beyond)
            &&& holder && meta.stdin_eof ==> r->Err_0 is AfterEof
            &&& holder && !meta.stdin_eof && gap ==> r->Err_0 == StdinError::Gap(
                meta.stdin_position,
            )
            &&& holder && !meta.stdin_eof && !gap && new_end <= u64::MAX && beyond
                ==> r->Err_0 is BeyondDeclared
            &&& r matches Ok(StdinPlan::Write { start, position }) ==> {
                &&& start < length
                &&& offset + start == position
                &&& position >= meta.stdin_position
                &&& offset <= meta.stdin_position ==> position == meta.stdin_position
                &&& offset > meta.stdin_position ==> position == offset
                &&& session.stdin_open
            }
            &&& r matches Ok(StdinPlan::Duplicate { position }) ==> position == meta.stdin_position
                && end <= meta.stdin_position && length > 0
            &&& r matches Ok(StdinPlan::Empty { position }) ==> length == 0 && (position
                == meta.stdin_position || position == offset) && position >= meta.stdin_position
                && position >= offset
            &&& r is Ok && holder && length > 0 && end > meta.stdin_position && session.stdin_open
                ==> r->Ok_0 is Write
            &&& r is Ok && holder && length > 0 && end > meta.stdin_position && !session.stdin_open
                ==> r->Ok_0 is NoStdin
            &&& r is Ok && holder && length > 0 && end <= meta.stdin_position
                ==> r->Ok_0 is Duplicate
            &&& r is Ok && holder && length == 0 ==> r->Ok_0 is Empty
        }),
{
}

proof fn last_receipts_are_current(
    session: Session,
    generation: u64,
    offset: u64,
    data: Seq<u8>,
    rooms: Seq<usize>,
)
    requires
        session.valid(),
        data.len() <= usize::MAX,
    ensures
        ({
            let result = session.accepted(generation, offset, data, rooms);
            let meta = result.session.meta;
            &&& result.acknowledgements.len() > 0 ==> result.acknowledgements.last()
                == meta.stdin_position
            &&& result.written.len() > 0 ==> result.acknowledgements.len() > 0
            &&& meta.stdin_eof_at == session.meta.stdin_eof_at
            &&& meta.stdout_end == session.meta.stdout_end
            &&& meta.stderr_end == session.meta.stderr_end
            &&& meta.status == session.meta.status
            &&& meta.output == session.meta.output
            &&& result.session.attachment == session.attachment
            &&& result.session.nobuffer == session.nobuffer
            &&& session.stdin_open && !session.meta.stdin_eof ==> (result.session.stdin_open
                <==> !meta.stdin_eof)
            &&& !session.stdin_open ==> !result.session.stdin_open
        }),
    decreases rooms.len(),
{
    if let Ok(StdinPlan::Write { start, position }) = session.planned(
        generation,
        offset,
        data.len(),
    ) {
        if rooms.len() > 0 && rooms[0] != 0 {
            let count = fits(rooms[0], data.len() - start);
            let after = session.took(position, count as usize);
            if !after.meta.stdin_eof {
                last_receipts_are_current(after, generation, offset, data, rooms.drop_first());
                let later = after.accepted(generation, offset, data, rooms.drop_first());
                let result = session.accepted(generation, offset, data, rooms);
                assert(result.acknowledgements =~= seq![(position + count) as u64]
                    + later.acknowledgements);
                if later.acknowledgements.len() == 0 {
                    stdin_is_never_repeated(after, generation, offset, data, rooms.drop_first());
                    assert(later.written.len() == 0);
                }
            }
        }
    }
}

/// A frame gives the command exactly its bytes between the position before it and
/// the position after it, and what is acknowledged last is where the session then
/// stands. Only the holder's frames do anything, and nothing but input changes.
pub proof fn accepted_input_is_written_once(
    session: &mut Session,
    generation: u64,
    offset: u64,
    data: &[u8],
    rooms: &[usize],
    r: (StdinReport, Option<StdinError>),
)
    requires
        old(session).valid(),
        call_ensures(Session::accept_stdin, (session, generation, offset, data, rooms), r),
        data@.len() <= usize::MAX,
    ensures
        ({
            let before = old(session).meta.stdin_position;
            let after = final(session).meta.stdin_position;
            let holder = old(session).attachment.current == Some(generation);
            let (report, error) = r;
            &&& before <= after
            &&& !holder ==> *final(session) == *old(session) && report.written@.len() == 0
                && report.acknowledgements@.len() == 0 && error is None
            &&& report.written@.len() > 0 ==> {
                let from = if offset > before {
                    offset
                } else {
                    before
                };
                &&& report.written@ == data@.subrange(from - offset, after - offset)
                &&& !old(session).nobuffer ==> from == before
                &&& report.acknowledgements@.len() > 0
            }
            &&& report.written@.len() == 0 && !old(session).nobuffer ==> after == before
            &&& report.acknowledgements@.len() > 0 ==> report.acknowledgements@.last() == after
            &&& holder && old(session).meta.stdin_eof ==> error == Some(StdinError::AfterEof)
                && report.written@.len() == 0
            &&& holder && !old(session).meta.stdin_eof && offset > before && !old(session).nobuffer
                ==> error == Some(StdinError::Gap(before)) && *final(session) == *old(session)
            &&& final(session).meta.stdin_eof_at == old(session).meta.stdin_eof_at
            &&& final(session).meta.stdout_end == old(session).meta.stdout_end
            &&& final(session).meta.stderr_end == old(session).meta.stderr_end
            &&& final(session).meta.status == old(session).meta.status
            &&& final(session).attachment == old(session).attachment
            &&& final(session).nobuffer == old(session).nobuffer
            &&& old(session).stdin_open && !old(session).meta.stdin_eof
                ==> (final(session).stdin_open <==> !final(session).meta.stdin_eof)
        }),
{
    stdin_is_never_repeated(*old(session), generation, offset, data@, rooms@);
    last_receipts_are_current(*old(session), generation, offset, data@, rooms@);
}

proof fn roomy_input_is_taken_whole(
    session: Session,
    generation: u64,
    offset: u64,
    data: Seq<u8>,
    rooms: Seq<usize>,
)
    requires
        session.valid(),
        session.attachment.current == Some(generation),
        session.stdin_open,
        !session.meta.stdin_eof,
        data.len() <= usize::MAX,
        offset <= session.meta.stdin_position || session.nobuffer,
        session.meta.stdin_position < offset + data.len() <= u64::MAX,
        data.len() > 0,
        session.meta.stdin_eof_at is Some ==> offset + data.len() <= session.meta.stdin_eof_at->0,
        forall|i: int| 0 <= i < rooms.len() ==> #[trigger] rooms[i] > 0,
        rooms.len() >= offset + data.len() - session.meta.stdin_position,
    ensures
        ({
            let result = session.accepted(generation, offset, data, rooms);
            &&& result.outcome == Ok::<bool, StdinError>(true)
            &&& result.session.meta.stdin_position == offset + data.len()
            &&& result.session.meta.stdin_eof <==> session.meta.stdin_eof_at == Some(
                (offset + data.len()) as u64,
            )
            &&& result.written.len() > 0
        }),
    decreases rooms.len(),
{
    let end = offset + data.len();
    if let Ok(StdinPlan::Write { start, position }) = session.planned(
        generation,
        offset,
        data.len(),
    ) {
        let count = fits(rooms[0], data.len() - start);
        assert(rooms[0] > 0);
        let after = session.took(position, count as usize);
        let rest = rooms.drop_first();
        assert forall|i: int| 0 <= i < rest.len() implies #[trigger] rest[i] > 0 by {
            assert(rest[i] == rooms[i + 1]);
        }
        if !after.meta.stdin_eof && position + count < end {
            roomy_input_is_taken_whole(after, generation, offset, data, rest);
        }
    }
}

/// Input that continues where the session stands is taken whole, if the command's
/// stdin is open and goes on taking bytes; and input has ended exactly if its
/// declared end is reached thereby.
pub proof fn continued_input_is_accepted(
    session: &mut Session,
    generation: u64,
    offset: u64,
    data: &[u8],
    rooms: &[usize],
    r: (StdinReport, Option<StdinError>),
)
    requires
        old(session).valid(),
        call_ensures(Session::accept_stdin, (session, generation, offset, data, rooms), r),
        old(session).attachment.current == Some(generation),
        old(session).stdin_open,
        !old(session).meta.stdin_eof,
        0 < data@.len() <= usize::MAX,
        offset <= old(session).meta.stdin_position || old(session).nobuffer,
        old(session).meta.stdin_position < offset + data@.len() <= u64::MAX,
        old(session).meta.stdin_eof_at is Some ==> offset + data@.len() <= old(session).meta.stdin_eof_at->0,
        forall|i: int| 0 <= i < rooms@.len() ==> #[trigger] rooms@[i] > 0,
        rooms@.len() >= offset + data@.len() - old(session).meta.stdin_position,
    ensures
        r.1 is None,
        r.0.done,
        final(session).meta.stdin_position == offset + data@.len(),
        final(session).meta.stdin_eof <==> old(session).meta.stdin_eof_at == Some(
            (offset + data@.len()) as u64,
        ),
        final(session).stdin_open <==> !final(session).meta.stdin_eof,
        r.0.written@.len() > 0,
        r.0.acknowledgements@.len() > 0,
        r.0.acknowledgements@.last() == offset + data@.len(),
{
    roomy_input_is_taken_whole(*old(session), generation, offset, data@, rooms@);
    last_receipts_are_current(*old(session), generation, offset, data@, rooms@);
}

/// Input that was accepted before is acknowledged where the session stands, and
/// changes nothing. Input without room waits; a command that closed its stdin is
/// an error; neither takes anything.
pub proof fn repeated_and_waiting_input_changes_nothing(
    session: &mut Session,
    generation: u64,
    offset: u64,
    data: &[u8],
    rooms: &[usize],
    r: (StdinReport, Option<StdinError>),
)
    requires
        old(session).valid(),
        call_ensures(Session::accept_stdin, (session, generation, offset, data, rooms), r),
        old(session).attachment.current == Some(generation),
        !old(session).meta.stdin_eof,
        0 < data@.len() <= usize::MAX,
        offset + data@.len() <= u64::MAX,
        offset <= old(session).meta.stdin_position || old(session).nobuffer,
        old(session).meta.stdin_eof_at is Some ==> offset + data@.len() <= old(session).meta.stdin_eof_at->0,
    ensures
        offset + data@.len() <= old(session).meta.stdin_position ==> *final(session) == *old(session) && r.1 is None && r.0.done && r.0.written@.len() == 0 && r.0.acknowledgements@ == seq![
            old(session).meta.stdin_position,
        ],
        offset + data@.len() > old(session).meta.stdin_position && old(session).stdin_open
            && rooms@.len() == 0 ==> *final(session) == *old(session) && r.1 is None && !r.0.done
            && r.0.written@.len() == 0,
        offset + data@.len() > old(session).meta.stdin_position && old(session).stdin_open
            && rooms@.len() > 0 && rooms@[0] == 0 ==> *final(session) == *old(session) && r.1
            == Some(StdinError::PipeClosed) && r.0.written@.len() == 0,
        offset + data@.len() > old(session).meta.stdin_position && !old(session).stdin_open
            ==> *final(session) == *old(session) && r.1 is None && r.0.done && r.0.written@.len()
            == 0,
{
}

/// Taking and giving up the slot of a session changes nothing else of it.
pub proof fn slots_leave_the_session_alone(
    session: &mut Session,
    force: bool,
    r: Option<AttachmentLease>,
)
    requires
        old(session).valid(),
        old(session).attachment.next_generation < u64::MAX,
        call_ensures(Session::install_attachment, (session, force), r),
    ensures
        r is None <==> old(session).attachment.current is Some && !force,
        r matches Some(lease) ==> final(session).attachment.current == Some(lease.generation)
            && lease.displaced == old(session).attachment.current && old(session).attachment.current
            != Some(lease.generation),
        r is None ==> final(session).attachment == old(session).attachment,
        final(session).meta == old(session).meta,
        final(session).nobuffer == old(session).nobuffer,
        final(session).stdin_open == old(session).stdin_open,
{
}

/// Giving the slot up frees it exactly for its holder.
pub proof fn only_the_holder_frees_the_slot(session: &mut Session, generation: u64)
    requires
        call_ensures(Session::compare_clear_attachment, (session, generation), ()),
    ensures
        old(session).attachment.current == Some(generation) ==> final(session).attachment.current is None,
        old(session).attachment.current != Some(generation) ==> *final(session) == *old(session),
        final(session).meta == old(session).meta,
        final(session).stdin_open == old(session).stdin_open,
        final(session).attachment.next_generation == old(session).attachment.next_generation,
{
}

/// A session begins at the beginning of its streams, open, unattached and without
/// an exit.
pub proof fn sessions_begin_open(nobuffer: bool, r: Session)
    requires
        call_ensures(Session::new, (nobuffer,), r),
    ensures
        r.meta.stdin_position == 0 && r.meta.stdout_end == 0 && r.meta.stderr_end == 0,
        !r.meta.stdin_eof && r.meta.stdin_eof_at is None,
        !r.meta.stdout_closed && !r.meta.stderr_closed,
        r.meta.status is None && r.meta.output is None,
        r.attachment.current is None,
        r.nobuffer == nobuffer,
        r.stdin_open,
{
}

/// A refusal of input shows the position that it is about.
pub proof fn refusals_show_their_position(error: StdinError, r: String)
    requires
        call_ensures(StdinError::message, (&error,), r),
    ensures
        error matches StdinError::Gap(position) ==> r@ == "stdin contains a gap at offset "@
            + text::decimal(position as nat),
        error matches StdinError::OpeningGap(position) ==> r@
            == "buffered stdin contains a gap at byte "@ + text::decimal(position as nat),
        error matches StdinError::AlreadyDeclared(offset) ==> r@
            == "stdin EOF was already declared at byte "@ + text::decimal(offset as nat),
        error matches StdinError::EofBehind { offset, position } ==> r@ == "stdin EOF at byte "@
            + text::decimal(offset as nat) + " is behind accepted byte "@ + text::decimal(
            position as nat,
        ),
{
}

/// An end of input is declared once: at a position that input has not passed, and
/// never at another one afterwards. Only there input has ended.
pub proof fn ends_of_input_stay_where_declared(
    meta: &mut Meta,
    offset: u64,
    r: Result<bool, StdinError>,
)
    requires
        old(meta).valid(),
        call_ensures(declare_stdin_eof_locked, (meta, offset), r),
    ensures
        r is Ok <==> offset >= old(meta).stdin_position && (old(meta).stdin_eof_at is None || old(meta).stdin_eof_at == Some(offset)),
        r matches Ok(reached) ==> {
            &&& final(meta).stdin_eof_at == Some(offset)
            &&& reached <==> offset == old(meta).stdin_position
            &&& reached ==> final(meta).stdin_eof
            &&& !reached ==> final(meta).stdin_eof == old(meta).stdin_eof
        },
        r is Err ==> *final(meta) == *old(meta),
        final(meta).stdin_position == old(meta).stdin_position,
        final(meta).stdout_end == old(meta).stdout_end,
        final(meta).stderr_end == old(meta).stderr_end,
        final(meta).stdout_closed == old(meta).stdout_closed,
        final(meta).stderr_closed == old(meta).stderr_closed,
        final(meta).status == old(meta).status,
{
}

/// Of a frame only what is new counts: its bytes from the position on that input has
/// reached. A gap is refused where input is kept, and nothing follows an end.
pub proof fn new_bytes_begin_at_the_position(
    meta: Meta,
    offset: u64,
    length: usize,
    nobuffer: bool,
    r: Result<(usize, u64), StdinError>,
)
    requires
        call_ensures(stdin_frame_start_locked, (&meta, offset, length, nobuffer), r),
    ensures
        meta.stdin_eof ==> r is Err,
        !meta.stdin_eof && !nobuffer && offset > meta.stdin_position ==> r == Err::<
            (usize, u64),
            StdinError,
        >(StdinError::Gap(meta.stdin_position)),
        r matches Ok((start, position)) ==> {
            &&& start <= length
            &&& offset <= meta.stdin_position ==> position == meta.stdin_position
            &&& offset > meta.stdin_position ==> position == offset && start == 0
            &&& start < length ==> offset + start == position
            &&& offset + length <= meta.stdin_position ==> start == length
        },
        r is Ok <==> !meta.stdin_eof && (nobuffer || offset <= meta.stdin_position) && offset
            + length <= u64::MAX && (meta.stdin_eof_at is Some ==> offset + length
            <= meta.stdin_eof_at->0 && meta.stdin_position <= meta.stdin_eof_at->0),
{
}

/// An attachment is current exactly while the slot names it.
pub proof fn attachments_are_current_while_named(
    session: Session,
    generation: u64,
    other: u64,
    r: bool,
    s: bool,
)
    requires
        call_ensures(Session::is_current_attachment, (&session, generation), r),
        call_ensures(Session::is_current_attachment, (&session, other), s),
    ensures
        r <==> session.attachment.current == Some(generation),
        r && s ==> generation == other,
{
}

} // verus!
