//! The proxy beside a session: opens it, and relays between the public streams
//! and the broker.
use vstd::prelude::*;

use crate::broker::opening::AttachKind;
use crate::broker::Stream;
use crate::json;
use crate::json::{error_of, has_capability, json_at, JsonAt, JsonView};
use crate::output::{OutputFact, ATTACHMENT, CAPABILITY};
use crate::protocol::{
    checked_end, BrokerRequest, CancelOutcome, ClientAction, ClientHello, ExitResult, Frame,
    FrameView, OutputOffsets, ProtocolError, ServerHello, FRAMED_ATTACHMENT_V1,
    GROUP_PIDFD_CAPABILITY,
};
use crate::text;
use crate::text::{bytes_range, decimal_text, join, join3, str_equal};

verus! {

/// Most bytes of raw input in one frame.
pub const RAW_CHUNK: usize = 32_768;

/// How the proxy was invoked.
#[derive(Clone, Copy, Debug, PartialEq, Eq, Structural)]
pub struct ServerFlags {
    pub force: bool,
    pub group_pidfd: bool,
    pub framed: bool,
    pub output_bounded: bool,
    pub output_limit: Option<u64>,
}

/// Why an opening message is refused.
#[derive(Clone, Copy, Debug, PartialEq, Eq, Structural)]
pub enum ServerRefusal {
    GroupOnlyNew,
    LimitOnlyNew,
    LimitRequired,
    FramedControl,
    ForceControl,
    EofWithoutPosition,
    ForceCreates,
    EofBeforeStart,
}

impl ServerRefusal {
    /// The diagnostic for the refusal.
    pub open spec fn text(self) -> Seq<char> {
        match self {
            ServerRefusal::GroupOnlyNew => {
                "--group-pidfd is only for new sessions; existing sessions cannot be retrofitted"@
            },
            ServerRefusal::LimitOnlyNew => {
                "--output-limit is only for new sessions; existing sessions cannot be retrofitted"@
            },
            ServerRefusal::LimitRequired => {
                "creating a bounded session requires --output-limit and --group-pidfd"@
            },
            ServerRefusal::FramedControl => {
                "--framed is for data attachments; use the ordinary EOF control"@
            },
            ServerRefusal::ForceControl => "force is only supported for data attachments"@,
            ServerRefusal::EofWithoutPosition => "stdin-eof requires stdin_eof"@,
            ServerRefusal::ForceCreates => {
                "force requires attach-only offsets and cannot create a session"@
            },
            ServerRefusal::EofBeforeStart => "stdin_eof is before stdin_start"@,
        }
    }

    pub fn message(&self) -> (r: String)
        ensures
            r@ == self.text(),
    {
        match self {
            ServerRefusal::GroupOnlyNew => {
                "--group-pidfd is only for new sessions; existing sessions cannot be retrofitted".to_owned()
            },
            ServerRefusal::LimitOnlyNew => {
                "--output-limit is only for new sessions; existing sessions cannot be retrofitted".to_owned()
            },
            ServerRefusal::LimitRequired => {
                "creating a bounded session requires --output-limit and --group-pidfd".to_owned()
            },
            ServerRefusal::FramedControl => {
                "--framed is for data attachments; use the ordinary EOF control".to_owned()
            },
            ServerRefusal::ForceControl => "force is only supported for data attachments".to_owned(),
            ServerRefusal::EofWithoutPosition => "stdin-eof requires stdin_eof".to_owned(),
            ServerRefusal::ForceCreates => {
                "force requires attach-only offsets and cannot create a session".to_owned()
            },
            ServerRefusal::EofBeforeStart => "stdin_eof is before stdin_start".to_owned(),
        }
    }
}

/// What the proxy asks the broker for.
#[derive(Clone, Copy, Debug, PartialEq, Eq, Structural)]
pub struct AttachmentOpen {
    pub kind: AttachKind,
    pub offsets: OutputOffsets,
    pub stdin_start: u64,
    pub stdin_eof: Option<u64>,
    pub force: bool,
}

/// What an opening message leads to.
#[derive(Clone, Copy, Debug, PartialEq, Eq, Structural)]
pub enum ServerOpening {
    Refuse(ServerRefusal),
    /// Only declare the end of input.
    DeclareEof { offset: u64 },
    /// Start a broker and attach to it.
    Create(AttachmentOpen),
    /// Attach to the broker that exists.
    Attach(AttachmentOpen),
}

/// The form of attachment that the flags ask for.
pub open spec fn flags_kind(flags: ServerFlags) -> AttachKind {
    if flags.output_bounded {
        AttachKind::Bounded
    } else if flags.framed {
        AttachKind::Framed
    } else {
        AttachKind::Raw
    }
}

/// What an opening message leads to.
pub open spec fn opening_of(flags: ServerFlags, hello: ClientHello) -> ServerOpening {
    let force = flags.force || hello.force;
    let creating = hello.offsets is None;
    let open = AttachmentOpen {
        kind: flags_kind(flags),
        offsets: match hello.offsets {
            Some(offsets) => offsets,
            None => OutputOffsets { stdout: 0, stderr: 0 },
        },
        stdin_start: hello.stdin_start,
        stdin_eof: hello.stdin_eof,
        force,
    };
    if flags.group_pidfd && (!creating || hello.action is Some) {
        ServerOpening::Refuse(ServerRefusal::GroupOnlyNew)
    } else if flags.output_limit is Some && !creating {
        ServerOpening::Refuse(ServerRefusal::LimitOnlyNew)
    } else if flags.framed && hello.action is Some {
        ServerOpening::Refuse(ServerRefusal::FramedControl)
    } else if hello.action is Some {
        if force {
            ServerOpening::Refuse(ServerRefusal::ForceControl)
        } else {
            match hello.stdin_eof {
                Some(offset) => ServerOpening::DeclareEof { offset },
                None => ServerOpening::Refuse(ServerRefusal::EofWithoutPosition),
            }
        }
    } else if creating && force {
        ServerOpening::Refuse(ServerRefusal::ForceCreates)
    } else if !force && hello.stdin_eof is Some && hello.stdin_eof->0 < hello.stdin_start {
        ServerOpening::Refuse(ServerRefusal::EofBeforeStart)
    } else if creating && flags.output_bounded && (flags.output_limit is None
        || !flags.group_pidfd) {
        ServerOpening::Refuse(ServerRefusal::LimitRequired)
    } else if creating {
        ServerOpening::Create(open)
    } else {
        ServerOpening::Attach(open)
    }
}

/// Decides what an opening message leads to.
pub fn open(flags: ServerFlags, hello: ClientHello) -> (r: ServerOpening)
    ensures
        r == opening_of(flags, hello),
{
    let force = flags.force || hello.force;
    let creating = hello.offsets.is_none();
    if flags.group_pidfd && (!creating || hello.action.is_some()) {
        return ServerOpening::Refuse(ServerRefusal::GroupOnlyNew);
    }
    if flags.output_limit.is_some() && !creating {
        return ServerOpening::Refuse(ServerRefusal::LimitOnlyNew);
    }
    if flags.framed && hello.action.is_some() {
        return ServerOpening::Refuse(ServerRefusal::FramedControl);
    }
    if let Some(ClientAction::StdinEof) = hello.action {
        if force {
            return ServerOpening::Refuse(ServerRefusal::ForceControl);
        }
        return match hello.stdin_eof {
            Some(offset) => ServerOpening::DeclareEof { offset },
            None => ServerOpening::Refuse(ServerRefusal::EofWithoutPosition),
        };
    }
    if creating && force {
        return ServerOpening::Refuse(ServerRefusal::ForceCreates);
    }
    if let Some(eof) = hello.stdin_eof {
        if !force && eof < hello.stdin_start {
            return ServerOpening::Refuse(ServerRefusal::EofBeforeStart);
        }
    }
    if creating && flags.output_bounded && (flags.output_limit.is_none() || !flags.group_pidfd) {
        return ServerOpening::Refuse(ServerRefusal::LimitRequired);
    }
    let kind = if flags.output_bounded {
        AttachKind::Bounded
    } else if flags.framed {
        AttachKind::Framed
    } else {
        AttachKind::Raw
    };
    let offsets = match hello.offsets {
        Some(offsets) => offsets,
        None => OutputOffsets { stdout: 0, stderr: 0 },
    };
    let open = AttachmentOpen {
        kind,
        offsets,
        stdin_start: hello.stdin_start,
        stdin_eof: hello.stdin_eof,
        force,
    };
    if creating {
        ServerOpening::Create(open)
    } else {
        ServerOpening::Attach(open)
    }
}

/// The request that asks a broker for an attachment.
pub fn attach_request(open: AttachmentOpen) -> (r: BrokerRequest)
    ensures
        r == (match open.kind {
            AttachKind::Raw => BrokerRequest::Attach {
                offsets: open.offsets,
                stdin_start: open.stdin_start,
                stdin_eof: open.stdin_eof,
                force: open.force,
            },
            AttachKind::Framed => BrokerRequest::AttachFramedV1 {
                offsets: open.offsets,
                stdin_start: open.stdin_start,
                stdin_eof: open.stdin_eof,
                force: open.force,
            },
            AttachKind::Bounded => BrokerRequest::AttachOutputV1 {
                offsets: open.offsets,
                stdin_start: open.stdin_start,
                stdin_eof: open.stdin_eof,
                force: open.force,
            },
        }),
{
    let AttachmentOpen { kind, offsets, stdin_start, stdin_eof, force } = open;
    match kind {
        AttachKind::Raw => BrokerRequest::Attach { offsets, stdin_start, stdin_eof, force },
        AttachKind::Framed => BrokerRequest::AttachFramedV1 {
            offsets,
            stdin_start,
            stdin_eof,
            force,
        },
        AttachKind::Bounded => BrokerRequest::AttachOutputV1 {
            offsets,
            stdin_start,
            stdin_eof,
            force,
        },
    }
}

/// Why the proxy gives up on an attachment.
#[derive(Clone, Copy, Debug, PartialEq, Eq, Structural)]
pub enum ProxyError {
    /// The broker did not confirm the framed form.
    FramedUnconfirmed,
    /// The broker did not confirm the form with output facts.
    BoundedUnconfirmed,
    /// A message is malformed.
    Protocol(ProtocolError),
    /// Output skipped or repeated bytes.
    NotContiguous,
    /// A receipt went back.
    ReceiptRegressed,
    /// A frame travelled the wrong way.
    WrongDirection,
    /// Output has a gap at this position.
    OutputGap(u64),
    /// The limit of a session changed.
    LimitChanged,
    /// A replay ended before everything retained was delivered.
    EndMismatch,
    /// The broker wants input behind its end.
    BeyondDeclaredEof,
}

impl ProxyError {
    /// The diagnostic for the error.
    pub open spec fn text(self) -> Seq<char> {
        match self {
            ProxyError::FramedUnconfirmed => {
                "broker did not confirm buffered framed-v1 attachment; no fallback; session retained"@
            },
            ProxyError::BoundedUnconfirmed => {
                "broker did not confirm framed-output-v1 attachment; no fallback; session retained"@
            },
            ProxyError::Protocol(error) => error.text(),
            ProxyError::NotContiguous => "broker output is not contiguous"@,
            ProxyError::ReceiptRegressed => "broker stdin receipt regressed"@,
            ProxyError::WrongDirection => "broker sent a client-to-server frame"@,
            ProxyError::OutputGap(position) => "broker output contains a gap at byte "@
                + text::decimal(position as nat),
            ProxyError::LimitChanged => "broker changed the output limit"@,
            ProxyError::EndMismatch => "replay end does not match the delivered output"@,
            ProxyError::BeyondDeclaredEof => {
                "broker stdin position is beyond the declared EOF"@
            },
        }
    }

    pub fn message(&self) -> (r: String)
        ensures
            r@ == self.text(),
    {
        match self {
            ProxyError::FramedUnconfirmed => {
                "broker did not confirm buffered framed-v1 attachment; no fallback; session retained".to_owned()
            },
            ProxyError::BoundedUnconfirmed => {
                "broker did not confirm framed-output-v1 attachment; no fallback; session retained".to_owned()
            },
            ProxyError::Protocol(error) => error.message(),
            ProxyError::NotContiguous => "broker output is not contiguous".to_owned(),
            ProxyError::ReceiptRegressed => "broker stdin receipt regressed".to_owned(),
            ProxyError::WrongDirection => "broker sent a client-to-server frame".to_owned(),
            ProxyError::OutputGap(position) => {
                join("broker output contains a gap at byte ", decimal_text(*position).as_str())
            },
            ProxyError::LimitChanged => "broker changed the output limit".to_owned(),
            ProxyError::EndMismatch => "replay end does not match the delivered output".to_owned(),
            ProxyError::BeyondDeclaredEof => {
                "broker stdin position is beyond the declared EOF".to_owned()
            },
        }
    }
}

/// A broker's reply, as far as it tells an error.
#[derive(Clone, Debug)]
pub struct ErrorResponse {
    pub error: Option<String>,
}

/// Whether a broker's reply is an error, whose line is passed on as it is.
/// `reply` is what was read of the line, if it can be read as such a reply.
pub fn is_error_reply(reply: &Option<ErrorResponse>) -> (r: bool)
    ensures
        r == (reply is Some && reply->0.error is Some),
{
    match reply {
        Some(reply) => reply.error.is_some(),
        None => false,
    }
}

/// Why a broker's opening is refused, if it is, before anything is forwarded.
pub open spec fn hello_refusal(kind: AttachKind, hello: ServerHello) -> Option<ProxyError> {
    match kind {
        AttachKind::Raw => None,
        AttachKind::Framed => if !(hello.attachment is Some && hello.attachment->0@
            == FRAMED_ATTACHMENT_V1@) || hello.nobuffer {
            Some(ProxyError::FramedUnconfirmed)
        } else if hello.exit is Some && !hello.exit->0.is_actual() {
            Some(ProxyError::Protocol(ProtocolError::ExitShape))
        } else {
            None
        },
        AttachKind::Bounded => if !(hello.attachment is Some && hello.attachment->0@ == ATTACHMENT@)
            || hello.nobuffer || hello.output is None || hello.exit is Some
            || hello.stdout_eof is Some || hello.stderr_eof is Some {
            Some(ProxyError::BoundedUnconfirmed)
        } else {
            match hello.output->0.verdict(false) {
                Ok(_) => None,
                Err(error) => Some(ProxyError::Protocol(error)),
            }
        },
    }
}

/// Checks a broker's opening against the form that was asked for.
pub fn check_hello(kind: AttachKind, hello: &ServerHello) -> (r: Option<ProxyError>)
    ensures
        r == hello_refusal(kind, *hello),
{
    match kind {
        AttachKind::Raw => None,
        AttachKind::Framed => {
            let confirmed = match &hello.attachment {
                Some(name) => str_equal(name.as_str(), FRAMED_ATTACHMENT_V1),
                None => false,
            };
            if !confirmed || hello.nobuffer {
                return Some(ProxyError::FramedUnconfirmed);
            }
            if let Some(exit) = &hello.exit {
                if let Err(error) = exit.validate() {
                    return Some(ProxyError::Protocol(error));
                }
            }
            None
        },
        AttachKind::Bounded => {
            let confirmed = match &hello.attachment {
                Some(name) => str_equal(name.as_str(), ATTACHMENT),
                None => false,
            };
            if !confirmed || hello.nobuffer || hello.exit.is_some() || hello.stdout_eof.is_some()
                || hello.stderr_eof.is_some() {
                return Some(ProxyError::BoundedUnconfirmed);
            }
            match &hello.output {
                None => Some(ProxyError::BoundedUnconfirmed),
                Some(fact) => match fact.validate(false) {
                    Ok(()) => None,
                    Err(error) => Some(ProxyError::Protocol(error)),
                },
            }
        },
    }
}

/// The relaying of a broker's frames to the public streams.
#[derive(Clone, Copy, Debug, PartialEq, Eq, Structural)]
pub struct Relay {
    pub kind: AttachKind,
    pub stdin_position: u64,
    pub stdout_position: u64,
    pub stderr_position: u64,
    /// The limit that the opening fixed, with output facts.
    pub limit: u64,
}

/// What becomes of a frame.
#[derive(Clone, Debug)]
pub enum RelayStep {
    /// Pass the frame on.
    Forward,
    /// Pass the frame on, and end with this status.
    ForwardEnd(i32),
    /// Write these bytes to a public stream.
    Write { stream: Stream, data: Vec<u8> },
    /// Nothing is to be written.
    Quiet,
    /// End with this status.
    End(i32),
}

/// What becomes of a frame.
pub enum RelayStepView {
    Forward,
    ForwardEnd(int),
    Write { stream: Stream, data: Seq<u8> },
    Quiet,
    End(int),
}

impl View for RelayStep {
    type V = RelayStepView;

    open spec fn view(&self) -> RelayStepView {
        match *self {
            RelayStep::Forward => RelayStepView::Forward,
            RelayStep::ForwardEnd(code) => RelayStepView::ForwardEnd(code as int),
            RelayStep::Write { stream, data } => RelayStepView::Write { stream, data: data@ },
            RelayStep::Quiet => RelayStepView::Quiet,
            RelayStep::End(code) => RelayStepView::End(code as int),
        }
    }
}

impl Relay {
    pub open spec fn position(self, stream: Stream) -> u64 {
        match stream {
            Stream::Stdout => self.stdout_position,
            Stream::Stderr => self.stderr_position,
        }
    }

    pub open spec fn at(self, stream: Stream, position: int) -> Relay {
        match stream {
            Stream::Stdout => Relay { stdout_position: position as u64, ..self },
            Stream::Stderr => Relay { stderr_position: position as u64, ..self },
        }
    }

    /// What becomes of output bytes: framed output has to continue exactly; of
    /// raw output what was written before is left out.
    pub open spec fn output(self, stream: Stream, offset: u64, data: Seq<u8>) -> Result<
        (Relay, RelayStepView),
        ProxyError,
    > {
        let position = self.position(stream);
        if self.kind != AttachKind::Raw {
            if offset != position {
                Err(ProxyError::NotContiguous)
            } else if offset + data.len() > u64::MAX {
                Err(ProxyError::Protocol(ProtocolError::PositionOverflow))
            } else {
                Ok((self.at(stream, offset + data.len()), RelayStepView::Forward))
            }
        } else if offset > position {
            Err(ProxyError::OutputGap(position))
        } else if position - offset >= data.len() {
            Ok((self, RelayStepView::Quiet))
        } else if offset + data.len() > u64::MAX {
            Err(ProxyError::Protocol(ProtocolError::PositionOverflow))
        } else {
            Ok(
                (
                    self.at(stream, offset + data.len()),
                    RelayStepView::Write { stream, data: data.skip(position - offset) },
                ),
            )
        }
    }

    /// What becomes of a frame.
    pub open spec fn relayed(self, frame: FrameView) -> Result<
        (Relay, RelayStepView),
        ProxyError,
    > {
        match frame {
            FrameView::StdoutData { offset, data } => self.output(Stream::Stdout, offset, data),
            FrameView::StderrData { offset, data } => self.output(Stream::Stderr, offset, data),
            FrameView::StdinPosition { offset } => if self.kind == AttachKind::Raw {
                Ok((self, RelayStepView::Quiet))
            } else if offset < self.stdin_position {
                Err(ProxyError::ReceiptRegressed)
            } else {
                Ok((Relay { stdin_position: offset, ..self }, RelayStepView::Forward))
            },
            FrameView::Exit(result) => match self.kind {
                AttachKind::Raw => Ok((self, RelayStepView::End(result.status()))),
                AttachKind::Framed => Ok((self, RelayStepView::ForwardEnd(result.status()))),
                AttachKind::Bounded => Err(ProxyError::WrongDirection),
            },
            FrameView::OutputState(fact) => if self.kind != AttachKind::Bounded {
                Err(ProxyError::WrongDirection)
            } else if fact.limit != self.limit {
                Err(ProxyError::LimitChanged)
            } else {
                Ok((self, RelayStepView::Forward))
            },
            FrameView::OutputEnd(fact) => if self.kind != AttachKind::Bounded {
                Err(ProxyError::WrongDirection)
            } else if fact.limit != self.limit {
                Err(ProxyError::LimitChanged)
            } else if fact.stdout.retained != self.stdout_position || fact.stderr.retained
                != self.stderr_position {
                Err(ProxyError::EndMismatch)
            } else {
                Ok((self, RelayStepView::ForwardEnd(fact.status())))
            },
            FrameView::StdinData { .. } | FrameView::StdinEof { .. } => Err(
                ProxyError::WrongDirection,
            ),
        }
    }

    /// Whether a frame's exit has a status, as it has when it was checked.
    pub open spec fn has_status(frame: FrameView) -> bool {
        match frame {
            FrameView::Exit(result) => result.has_status(),
            FrameView::OutputEnd(fact) => fact.leader_exit is Some
                ==> fact.leader_exit->0.has_status(),
            _ => true,
        }
    }

    /// Begins after the broker's opening.
    pub fn begin(kind: AttachKind, hello: &ServerHello) -> (r: Relay)
        ensures
            r == (Relay {
                kind,
                stdin_position: hello.offsets.stdin,
                stdout_position: hello.offsets.stdout,
                stderr_position: hello.offsets.stderr,
                limit: match hello.output {
                    Some(fact) => fact.limit,
                    None => 0,
                },
            }),
    {
        Relay {
            kind,
            stdin_position: hello.offsets.stdin,
            stdout_position: hello.offsets.stdout,
            stderr_position: hello.offsets.stderr,
            limit: match &hello.output {
                Some(fact) => fact.limit,
                None => 0,
            },
        }
    }

    fn output_frame(&mut self, stream: Stream, offset: u64, data: &[u8]) -> (r: Result<
        RelayStep,
        ProxyError,
    >)
        ensures
            match r {
                Ok(step) => old(self).output(stream, offset, data@) == Ok::<
                    (Relay, RelayStepView),
                    ProxyError,
                >((*final(self), step@)),
                Err(error) => old(self).output(stream, offset, data@) == Err::<
                    (Relay, RelayStepView),
                    ProxyError,
                >(error) && *final(self) == *old(self),
            },
    {
        let position: u64 = match stream {
            Stream::Stdout => self.stdout_position,
            Stream::Stderr => self.stderr_position,
        };
        let raw = match self.kind {
            AttachKind::Raw => true,
            _ => false,
        };
        if !raw && offset != position {
            return Err(ProxyError::NotContiguous);
        }
        if raw && offset > position {
            return Err(ProxyError::OutputGap(position));
        }
        let behind: u64 = position - offset;
        if raw && behind >= data.len() as u64 {
            return Ok(RelayStep::Quiet);
        }
        let end: u64 = match checked_end(offset, data.len()) {
            Ok(end) => end,
            Err(error) => {
                return Err(ProxyError::Protocol(error));
            },
        };
        match stream {
            Stream::Stdout => {
                self.stdout_position = end;
            },
            Stream::Stderr => {
                self.stderr_position = end;
            },
        }
        if raw {
            let rest = bytes_range(data, behind as usize, data.len());
            assert(rest@ =~= data@.skip(behind as int));
            Ok(RelayStep::Write { stream, data: rest })
        } else {
            Ok(RelayStep::Forward)
        }
    }

    /// Relays one frame of the broker. An error ends the attachment; nothing is
    /// then written to the public streams.
    pub fn frame(&mut self, frame: &Frame) -> (r: Result<RelayStep, ProxyError>)
        requires
            Relay::has_status(frame@),
        ensures
            match r {
                Ok(step) => old(self).relayed(frame@) == Ok::<(Relay, RelayStepView), ProxyError>(
                    (*final(self), step@),
                ),
                Err(error) => old(self).relayed(frame@) == Err::<
                    (Relay, RelayStepView),
                    ProxyError,
                >(error) && *final(self) == *old(self),
            },
    {
        match frame {
            Frame::StdoutData { offset, data } => {
                self.output_frame(Stream::Stdout, *offset, data.as_slice())
            },
            Frame::StderrData { offset, data } => {
                self.output_frame(Stream::Stderr, *offset, data.as_slice())
            },
            Frame::StdinPosition { offset } => {
                match self.kind {
                    AttachKind::Raw => Ok(RelayStep::Quiet),
                    _ => {
                        if *offset < self.stdin_position {
                            return Err(ProxyError::ReceiptRegressed);
                        }
                        self.stdin_position = *offset;
                        Ok(RelayStep::Forward)
                    },
                }
            },
            Frame::Exit(result) => match self.kind {
                AttachKind::Raw => Ok(RelayStep::End(result.process_code())),
                AttachKind::Framed => Ok(RelayStep::ForwardEnd(result.process_code())),
                AttachKind::Bounded => Err(ProxyError::WrongDirection),
            },
            Frame::OutputState(fact) => match self.kind {
                AttachKind::Bounded => {
                    if fact.limit != self.limit {
                        Err(ProxyError::LimitChanged)
                    } else {
                        Ok(RelayStep::Forward)
                    }
                },
                _ => Err(ProxyError::WrongDirection),
            },
            Frame::OutputEnd(fact) => match self.kind {
                AttachKind::Bounded => {
                    if fact.limit != self.limit {
                        Err(ProxyError::LimitChanged)
                    } else if fact.stdout.retained != self.stdout_position
                        || fact.stderr.retained != self.stderr_position {
                        Err(ProxyError::EndMismatch)
                    } else {
                        Ok(RelayStep::ForwardEnd(fact.process_code()))
                    }
                },
                _ => Err(ProxyError::WrongDirection),
            },
            Frame::StdinData { .. } | Frame::StdinEof { .. } => Err(ProxyError::WrongDirection),
        }
    }

    /// The status when a stream ends without a result: only raw streams end
    /// that way without complaint.
    pub fn ended(&self) -> (r: i32)
        ensures
            r == (if self.kind == AttachKind::Raw {
                0i32
            } else {
                1
            }),
    {
        match self.kind {
            AttachKind::Raw => 0,
            _ => 1,
        }
    }
}

/// Raw output that is written continues the stream exactly: byte for byte it is
/// what stands between the position before a frame and the position after it.
/// Framed output that is passed on begins at the position and ends at the next.
pub proof fn relayed_output_is_contiguous(
    relay: Relay,
    stream: Stream,
    offset: u64,
    data: Seq<u8>,
)
    requires
        relay.output(stream, offset, data) is Ok,
    ensures
        ({
            let (after, step) = relay.output(stream, offset, data)->Ok_0;
            &&& after.position(stream) >= relay.position(stream)
            &&& step matches RelayStepView::Write { stream: to, data: written } ==> {
                &&& to == stream
                &&& written.len() == after.position(stream) - relay.position(stream)
                &&& written == data.subrange(
                    relay.position(stream) - offset,
                    after.position(stream) - offset,
                )
            }
            &&& step is Forward ==> offset == relay.position(stream) && after.position(stream)
                == offset + data.len()
            &&& step is Quiet ==> after == relay
        }),
{
    let (after, step) = relay.output(stream, offset, data)->Ok_0;
    if let RelayStepView::Write { stream: to, data: written } = step {
        assert(written =~= data.subrange(
            relay.position(stream) - offset,
            after.position(stream) - offset,
        ));
    }
}

/// A replay end is passed on only after everything that it says is retained.
pub proof fn replay_end_matches_delivery(relay: Relay, fact: OutputFact)
    requires
        relay.kind == AttachKind::Bounded,
        relay.relayed(FrameView::OutputEnd(fact)) is Ok,
    ensures
        relay.stdout_position == fact.stdout.retained,
        relay.stderr_position == fact.stderr.retained,
        fact.limit == relay.limit,
{
}

/// The forwarding of raw input to the broker.
#[derive(Clone, Copy, Debug, PartialEq, Eq, Structural)]
pub struct RawForward {
    pub position: u64,
    pub eof: Option<u64>,
}

/// What forwarding raw input does next.
#[derive(Clone, Copy, Debug, PartialEq, Eq, Structural)]
pub enum RawForwardStep {
    /// Read at most so many bytes.
    Read(usize),
    /// There is nothing more to read. The public input stays open.
    Rest,
    Fail(ProxyError),
}

impl RawForward {
    pub open spec fn next_step(self, already_eof: bool) -> RawForwardStep {
        if already_eof {
            RawForwardStep::Rest
        } else {
            match self.eof {
                None => RawForwardStep::Read(RAW_CHUNK),
                Some(end) => if self.position > end {
                    RawForwardStep::Fail(ProxyError::BeyondDeclaredEof)
                } else if self.position == end {
                    RawForwardStep::Rest
                } else if end - self.position <= RAW_CHUNK {
                    RawForwardStep::Read((end - self.position) as usize)
                } else {
                    RawForwardStep::Read(RAW_CHUNK)
                },
            }
        }
    }

    /// Decides how much to read. Nothing is read behind the declared end.
    pub fn next(&self, already_eof: bool) -> (r: RawForwardStep)
        ensures
            r == self.next_step(already_eof),
    {
        if already_eof {
            return RawForwardStep::Rest;
        }
        match self.eof {
            None => RawForwardStep::Read(RAW_CHUNK),
            Some(end) => {
                if self.position > end {
                    RawForwardStep::Fail(ProxyError::BeyondDeclaredEof)
                } else if self.position == end {
                    RawForwardStep::Rest
                } else {
                    let rest: u64 = end - self.position;
                    if rest <= RAW_CHUNK as u64 {
                        RawForwardStep::Read(rest as usize)
                    } else {
                        RawForwardStep::Read(RAW_CHUNK)
                    }
                }
            },
        }
    }

    /// Frames bytes that were read.
    pub fn frame(&mut self, data: Vec<u8>) -> (r: Result<Frame, ProxyError>)
        ensures
            match r {
                Ok(frame) => {
                    &&& frame@ == (FrameView::StdinData {
                        offset: old(self).position,
                        data: data@,
                    })
                    &&& final(self).position == old(self).position + data@.len()
                    &&& final(self).eof == old(self).eof
                },
                Err(error) => {
                    &&& error == ProxyError::Protocol(ProtocolError::PositionOverflow)
                    &&& old(self).position + data@.len() > u64::MAX
                    &&& *final(self) == *old(self)
                },
            },
    {
        let offset: u64 = self.position;
        match checked_end(offset, data.len()) {
            Ok(end) => {
                self.position = end;
                Ok(Frame::StdinData { offset, data })
            },
            Err(error) => Err(ProxyError::Protocol(error)),
        }
    }
}

/// What is known of a broker that was started and does not answer yet.
#[derive(Clone, Copy, Debug, PartialEq, Eq, Structural)]
pub enum ChildState {
    Running,
    Exited,
    WaitFailed,
}

/// What waiting for a new broker comes to.
#[derive(Clone, Copy, Debug, PartialEq, Eq, Structural)]
pub enum StartStep {
    /// The broker answers.
    Connected,
    /// Look again shortly.
    Poll,
    /// Give up, but keep the session: the command may run.
    ReadinessUnknown,
    /// Give up, kill the broker and remove the session.
    NotReady,
    /// Give up, but keep the session: what became of the broker is unknown.
    WaitUnknown,
    /// Give up: waiting for the broker failed.
    WaitFailed,
    /// The broker ended before it started the command: remove the session.
    ExitedEarly,
    /// The broker ended and may have started the command: keep the session.
    ExitedUnknown,
}

/// What waiting comes to: whether the broker answers, whether time is up, what
/// is known of it, whether the session has group control, and whether the
/// command may have been started.
pub open spec fn start_step(
    connected: bool,
    expired: bool,
    child: ChildState,
    hardened: bool,
    may_have_started: bool,
) -> StartStep {
    if connected {
        StartStep::Connected
    } else if expired {
        if hardened {
            StartStep::ReadinessUnknown
        } else {
            StartStep::NotReady
        }
    } else {
        match child {
            ChildState::Running => StartStep::Poll,
            ChildState::WaitFailed => if hardened {
                StartStep::WaitUnknown
            } else {
                StartStep::WaitFailed
            },
            ChildState::Exited => if may_have_started {
                StartStep::ExitedUnknown
            } else {
                StartStep::ExitedEarly
            },
        }
    }
}

/// Decides what to do while a new broker is awaited.
pub fn await_broker(
    connected: bool,
    expired: bool,
    child: ChildState,
    hardened: bool,
    may_have_started: bool,
) -> (r: StartStep)
    ensures
        r == start_step(connected, expired, child, hardened, may_have_started),
{
    if connected {
        return StartStep::Connected;
    }
    if expired {
        return if hardened {
            StartStep::ReadinessUnknown
        } else {
            StartStep::NotReady
        };
    }
    match child {
        ChildState::Running => StartStep::Poll,
        ChildState::WaitFailed => {
            if hardened {
                StartStep::WaitUnknown
            } else {
                StartStep::WaitFailed
            }
        },
        ChildState::Exited => {
            if may_have_started {
                StartStep::ExitedUnknown
            } else {
                StartStep::ExitedEarly
            }
        },
    }
}

/// A session whose command may run under group control is never removed or
/// killed by the proxy that created it.
pub proof fn started_sessions_are_kept(
    connected: bool,
    expired: bool,
    child: ChildState,
    may_have_started: bool,
)
    ensures
        start_step(connected, expired, child, true, may_have_started) != StartStep::NotReady,
        may_have_started ==> start_step(connected, expired, child, true, may_have_started)
            != StartStep::ExitedEarly,
{
}

/// The diagnostic for a broker that did not become ready. `detail` is what it
/// logged, `error` why it could not be reached or waited for, `status` how it
/// ended.
pub open spec fn start_failure(
    step: StartStep,
    detail: Seq<char>,
    error: Seq<char>,
    status: Seq<char>,
) -> Seq<char> {
    match step {
        StartStep::ReadinessUnknown => {
            "session broker readiness unknown after dispatch; session retained; workload may have started; query the same session, do not retry creation"@
        },
        StartStep::WaitUnknown => "session broker wait failed after dispatch: "@ + error
            + "; session retained; workload may have started; query the same session, do not retry creation"@,
        StartStep::WaitFailed => error,
        StartStep::ExitedUnknown => "session broker exited after dispatch ("@ + status
            + "); session retained; workload may have started; query the same session, do not retry creation"@,
        StartStep::ExitedEarly => if detail.len() == 0 {
            "session broker exited during startup ("@ + status + ")"@
        } else {
            "session broker failed: "@ + detail
        },
        _ => if detail.len() == 0 {
            "session broker did not become ready"@
        } else {
            "session broker failed: "@ + detail
        },
    }
}

/// The diagnostic for a broker that did not become ready.
pub fn start_failure_message(step: StartStep, detail: &str, error: &str, status: &str) -> (r:
    String)
    ensures
        r@ == start_failure(step, detail@, error@, status@),
{
    match step {
        StartStep::ReadinessUnknown => {
            "session broker readiness unknown after dispatch; session retained; workload may have started; query the same session, do not retry creation".to_owned()
        },
        StartStep::WaitUnknown => join3(
            "session broker wait failed after dispatch: ",
            error,
            "; session retained; workload may have started; query the same session, do not retry creation",
        ),
        StartStep::WaitFailed => error.to_owned(),
        StartStep::ExitedUnknown => join3(
            "session broker exited after dispatch (",
            status,
            "); session retained; workload may have started; query the same session, do not retry creation",
        ),
        StartStep::ExitedEarly => {
            if detail.is_empty() {
                join3("session broker exited during startup (", status, ")")
            } else {
                join("session broker failed: ", detail)
            }
        },
        _ => {
            if detail.is_empty() {
                "session broker did not become ready".to_owned()
            } else {
                join("session broker failed: ", detail)
            }
        },
    }
}

/// What looking for the broker of a session that should exist comes to.
#[derive(Clone, Copy, Debug, PartialEq, Eq, Structural)]
pub enum ReachStep {
    /// The broker answers.
    Connected,
    /// Look again shortly.
    Poll,
    /// There is no such session.
    Missing,
    /// The session is there, but its broker does not answer in time.
    Unreachable,
}

/// What looking comes to: whether the session is there, whether its broker
/// answers, and whether time is up.
pub open spec fn reach_step(present: bool, connected: bool, expired: bool) -> ReachStep {
    if !present {
        ReachStep::Missing
    } else if connected {
        ReachStep::Connected
    } else if expired {
        ReachStep::Unreachable
    } else {
        ReachStep::Poll
    }
}

/// Decides what to do while the broker of a session is looked for.
pub fn reach_broker(present: bool, connected: bool, expired: bool) -> (r: ReachStep)
    ensures
        r == reach_step(present, connected, expired),
{
    if !present {
        ReachStep::Missing
    } else if connected {
        ReachStep::Connected
    } else if expired {
        ReachStep::Unreachable
    } else {
        ReachStep::Poll
    }
}

impl ReachStep {
    /// The diagnostic for a session that cannot be reached.
    pub open spec fn text(self) -> Seq<char> {
        match self {
            ReachStep::Missing => "session does not exist"@,
            _ => "cannot connect to session broker"@,
        }
    }

    pub fn message(&self) -> (r: String)
        ensures
            r@ == self.text(),
    {
        match self {
            ReachStep::Missing => "session does not exist".to_owned(),
            _ => "cannot connect to session broker".to_owned(),
        }
    }

    /// The machine-readable code: only a session that is not there has one.
    pub fn code(&self) -> (r: Option<String>)
        ensures
            match r {
                Some(code) => self is Missing && code@ == "session_missing"@,
                None => !(self is Missing),
            },
    {
        match self {
            ReachStep::Missing => Some("session_missing".to_owned()),
            _ => None,
        }
    }
}

/// A session counts as missing exactly if it is not there: a broker that does
/// not answer, however long, never makes it so.
pub proof fn only_absence_is_missing(present: bool, connected: bool, expired: bool)
    ensures
        reach_step(present, connected, expired) is Missing <==> !present,
{
}

/// A control request from the command line.
#[derive(Clone, Copy, Debug, PartialEq, Eq, Structural)]
pub enum Control {
    Pid,
    Session,
    Cancel,
    CancelGroupPidfd,
    CancelOutput,
}

/// The request that a control asks a broker for.
pub fn control_request(control: Control) -> (r: BrokerRequest)
    ensures
        r == (match control {
            Control::Pid => BrokerRequest::Pid,
            Control::Session => BrokerRequest::Session,
            Control::Cancel => BrokerRequest::Cancel,
            Control::CancelGroupPidfd => BrokerRequest::CancelGroupPidfd,
            Control::CancelOutput => BrokerRequest::CancelOutputV1,
        }),
{
    match control {
        Control::Pid => BrokerRequest::Pid,
        Control::Session => BrokerRequest::Session,
        Control::Cancel => BrokerRequest::Cancel,
        Control::CancelGroupPidfd => BrokerRequest::CancelGroupPidfd,
        Control::CancelOutput => BrokerRequest::CancelOutputV1,
    }
}

/// The control that `cancel` asks for.
pub fn cancel_control(require_group_pidfd: bool, output_bounded: bool) -> (r: Control)
    ensures
        r == (if output_bounded {
            Control::CancelOutput
        } else if require_group_pidfd {
            Control::CancelGroupPidfd
        } else {
            Control::Cancel
        }),
{
    if output_bounded {
        Control::CancelOutput
    } else if require_group_pidfd {
        Control::CancelGroupPidfd
    } else {
        Control::Cancel
    }
}

/// Why a control reply is of no use.
#[derive(Clone, Debug)]
pub enum ControlError {
    /// It is not JSON.
    Invalid,
    /// The broker refused.
    Refused(String),
    /// It has no process number.
    NoPid,
    /// It does not name the capability that was required.
    Unverified,
    /// It does not name finite output.
    Unbounded,
    /// It has no exit.
    NoExit,
    /// It has no outcome.
    NoOutcome,
    /// A member of it holds something else than it should.
    Malformed(String),
}

/// Why a control reply is of no use, in terms of texts.
pub enum ControlErrorView {
    Invalid,
    Refused(Seq<char>),
    NoPid,
    Unverified,
    Unbounded,
    NoExit,
    NoOutcome,
    Malformed(Seq<char>),
}

impl View for ControlError {
    type V = ControlErrorView;

    open spec fn view(&self) -> ControlErrorView {
        match *self {
            ControlError::Invalid => ControlErrorView::Invalid,
            ControlError::Refused(error) => ControlErrorView::Refused(error@),
            ControlError::NoPid => ControlErrorView::NoPid,
            ControlError::Unverified => ControlErrorView::Unverified,
            ControlError::Unbounded => ControlErrorView::Unbounded,
            ControlError::NoExit => ControlErrorView::NoExit,
            ControlError::NoOutcome => ControlErrorView::NoOutcome,
            ControlError::Malformed(error) => ControlErrorView::Malformed(error@),
        }
    }
}

impl ControlErrorView {
    /// The diagnostic for the error.
    pub open spec fn text(self) -> Seq<char> {
        match self {
            ControlErrorView::Invalid => "broker returned an invalid control response"@,
            ControlErrorView::Refused(error) => error,
            ControlErrorView::NoPid => "broker returned an invalid PID response"@,
            ControlErrorView::Unverified => {
                "broker did not verify group-pidfd-cancel-v1 for this session"@
            },
            ControlErrorView::Unbounded => {
                "broker did not verify finite-output-v1 for this session"@
            },
            ControlErrorView::NoExit => "broker returned an invalid cancellation response"@,
            ControlErrorView::NoOutcome => "broker returned no cancellation outcome"@,
            ControlErrorView::Malformed(error) => error,
        }
    }
}

impl ControlError {
    pub fn message(&self) -> (r: String)
        ensures
            r@ == self@.text(),
    {
        match self {
            ControlError::Invalid => "broker returned an invalid control response".to_owned(),
            ControlError::Refused(error) => error.as_str().to_owned(),
            ControlError::NoPid => "broker returned an invalid PID response".to_owned(),
            ControlError::Unverified => {
                "broker did not verify group-pidfd-cancel-v1 for this session".to_owned()
            },
            ControlError::Unbounded => {
                "broker did not verify finite-output-v1 for this session".to_owned()
            },
            ControlError::NoExit => "broker returned an invalid cancellation response".to_owned(),
            ControlError::NoOutcome => "broker returned no cancellation outcome".to_owned(),
            ControlError::Malformed(error) => error.as_str().to_owned(),
        }
    }
}

/// The result of a control in terms of texts.
pub open spec fn control_view<T>(r: Result<T, ControlError>) -> Result<T, ControlErrorView> {
    match r {
        Ok(value) => Ok(value),
        Err(error) => Err(error@),
    }
}

/// Whether a reply reports success, from what stands at its `error` member.
pub open spec fn reply_verdict(error: JsonView) -> Option<ControlErrorView> {
    match json::reply_error(error) {
        None => Some(ControlErrorView::Invalid),
        Some(Some(text)) => Some(ControlErrorView::Refused(text)),
        Some(None) => None,
    }
}

/// Reads what was found at a reply's `error` member.
pub fn check_reply_found(error: JsonAt) -> (r: Option<ControlError>)
    ensures
        match r {
            None => reply_verdict(error@) is None,
            Some(fault) => reply_verdict(error@) == Some(fault@),
        },
{
    match error_of(error) {
        None => Some(ControlError::Invalid),
        Some(Some(text)) => Some(ControlError::Refused(text)),
        Some(None) => None,
    }
}

/// Checks that a control reply reports success.
pub fn check_reply(line: &[u8]) -> (r: Option<ControlError>)
    ensures
        match r {
            None => reply_verdict(json::json_lookup(line@, "/error"@)) is None,
            Some(fault) => reply_verdict(json::json_lookup(line@, "/error"@)) == Some(fault@),
        },
{
    check_reply_found(json_at(line, "/error"))
}

/// The process number in a reply.
pub open spec fn pid_verdict(error: JsonView, pid: JsonView) -> Result<i64, ControlErrorView> {
    match reply_verdict(error) {
        Some(fault) => Err(fault),
        None => match pid.signed() {
            Some(number) => Ok(number),
            None => Err(ControlErrorView::NoPid),
        },
    }
}

/// Takes the process number out of what was found in a reply.
pub fn pid_found(error: JsonAt, pid: &JsonAt) -> (r: Result<i64, ControlError>)
    ensures
        control_view(r) == pid_verdict(error@, pid@),
{
    if let Some(fault) = check_reply_found(error) {
        return Err(fault);
    }
    match pid.signed() {
        Some(number) => Ok(number),
        None => Err(ControlError::NoPid),
    }
}

/// Reads the process number out of a reply.
pub fn read_pid(line: &[u8]) -> (r: Result<i64, ControlError>)
    ensures
        control_view(r) == pid_verdict(
            json::json_lookup(line@, "/error"@),
            json::json_lookup(line@, "/pid"@),
        ),
{
    pid_found(json_at(line, "/error"), &json_at(line, "/pid"))
}

/// A member of a reply, if it has it: its value, or why it holds none. The reason
/// is taken as text.
pub open spec fn member_view<T>(member: Option<Result<T, String>>) -> Option<Result<T, Seq<char>>> {
    match member {
        None => None,
        Some(Ok(value)) => Some(Ok(value)),
        Some(Err(error)) => Some(Err(error@)),
    }
}

/// What a cancellation reply comes to: the exit to end with. Its error comes
/// first, then the capability, the exit and the outcome.
pub open spec fn cancel_verdict(
    error: JsonView,
    required: bool,
    verified: bool,
    exit: Option<Result<ExitResult, Seq<char>>>,
    outcome: Option<Result<CancelOutcome, Seq<char>>>,
) -> Result<ExitResult, ControlErrorView> {
    match reply_verdict(error) {
        Some(fault) => Err(fault),
        None => if required && !verified {
            Err(ControlErrorView::Unverified)
        } else {
            match exit {
                None => Err(ControlErrorView::NoExit),
                Some(Err(text)) => Err(ControlErrorView::Malformed(text)),
                Some(Ok(exit)) => match outcome {
                    None => Err(ControlErrorView::NoOutcome),
                    Some(Err(text)) => Err(ControlErrorView::Malformed(text)),
                    Some(Ok(_)) => Ok(exit),
                },
            }
        },
    }
}

/// Decides on what was found in a cancellation reply. `verified` says whether it
/// names the group capability.
pub fn cancel_found(
    error: JsonAt,
    require_group_pidfd: bool,
    verified: bool,
    exit: Option<Result<ExitResult, String>>,
    outcome: Option<Result<CancelOutcome, String>>,
) -> (r: Result<ExitResult, ControlError>)
    ensures
        control_view(r) == cancel_verdict(
            error@,
            require_group_pidfd,
            verified,
            member_view(exit),
            member_view(outcome),
        ),
{
    if let Some(fault) = check_reply_found(error) {
        return Err(fault);
    }
    if require_group_pidfd && !verified {
        return Err(ControlError::Unverified);
    }
    match exit {
        None => Err(ControlError::NoExit),
        Some(Err(text)) => Err(ControlError::Malformed(text)),
        Some(Ok(exit)) => match outcome {
            None => Err(ControlError::NoOutcome),
            Some(Err(text)) => Err(ControlError::Malformed(text)),
            Some(Ok(_)) => Ok(exit),
        },
    }
}

/// Reads a cancellation reply. `exit` and `outcome` are what its members of
/// these names hold, or why they hold nothing of the kind. The exit to
/// end with is the command's own, whatever the outcome.
pub fn read_cancel(
    line: &[u8],
    require_group_pidfd: bool,
    exit: Option<Result<ExitResult, String>>,
    outcome: Option<Result<CancelOutcome, String>>,
) -> (r: Result<ExitResult, ControlError>)
    ensures
        control_view(r) == cancel_verdict(
            json::json_lookup(line@, "/error"@),
            require_group_pidfd,
            json::names_capability(line@, GROUP_PIDFD_CAPABILITY@),
            member_view(exit),
            member_view(outcome),
        ),
{
    cancel_found(
        json_at(line, "/error"),
        require_group_pidfd,
        has_capability(line, GROUP_PIDFD_CAPABILITY),
        exit,
        outcome,
    )
}

/// What the reply to a cancellation with output facts comes to: the facts to end
/// with, or none where an error came with them, which ends with status one.
pub open spec fn bounded_cancel_verdict(
    error: JsonView,
    verified: bool,
    fact: Option<Result<OutputFact, Seq<char>>>,
) -> Result<Option<OutputFact>, ControlErrorView> {
    match json::reply_error(error) {
        None => Err(ControlErrorView::Invalid),
        Some(failure) => match fact {
            None => match failure {
                Some(text) => Err(ControlErrorView::Refused(text)),
                None => Err(ControlErrorView::Unbounded),
            },
            Some(fact) => if !verified {
                Err(ControlErrorView::Unbounded)
            } else {
                match fact {
                    Err(text) => Err(ControlErrorView::Malformed(text)),
                    Ok(fact) => if failure is Some {
                        Ok(None)
                    } else {
                        Ok(Some(fact))
                    },
                }
            },
        },
    }
}

/// Decides on what was found in the reply to a cancellation with output facts.
/// `verified` says whether it names finite output.
pub fn bounded_cancel_found(
    error: JsonAt,
    verified: bool,
    fact: Option<Result<OutputFact, String>>,
) -> (r: Result<Option<OutputFact>, ControlError>)
    ensures
        control_view(r) == bounded_cancel_verdict(error@, verified, member_view(fact)),
{
    let failure = match error_of(error) {
        None => {
            return Err(ControlError::Invalid);
        },
        Some(failure) => failure,
    };
    match fact {
        None => match failure {
            Some(text) => Err(ControlError::Refused(text)),
            None => Err(ControlError::Unbounded),
        },
        Some(fact) => {
            if !verified {
                return Err(ControlError::Unbounded);
            }
            match fact {
                Err(text) => Err(ControlError::Malformed(text)),
                Ok(fact) => if failure.is_some() {
                    Ok(None)
                } else {
                    Ok(Some(fact))
                },
            }
        },
    }
}

/// Reads the reply to a cancellation with output facts. `fact` is what its
/// `output` member holds, or why it holds no fact.
pub fn read_bounded_cancel(line: &[u8], fact: Option<Result<OutputFact, String>>) -> (r: Result<
    Option<OutputFact>,
    ControlError,
>)
    ensures
        control_view(r) == bounded_cancel_verdict(
            json::json_lookup(line@, "/error"@),
            json::names_capability(line@, CAPABILITY@),
            member_view(fact),
        ),
{
    bounded_cancel_found(json_at(line, "/error"), has_capability(line, CAPABILITY), fact)
}

/// An exit that ends a relay, raw or framed, ends it with the command's status:
/// its code where there is one, and otherwise 128 and its signal. A framed relay
/// also passes it on. A relay with output facts takes no exit.
pub proof fn exits_end_with_the_commands_status(
    relay: &mut Relay,
    frame: Frame,
    exit: ExitResult,
    r: Result<RelayStep, ProxyError>,
)
    requires
        frame == Frame::Exit(exit),
        exit.is_actual(),
        call_ensures(Relay::frame, (relay, &frame), r),
    ensures
        old(relay).kind is Bounded ==> r is Err && r->Err_0 is WrongDirection,
        old(relay).kind is Raw ==> r is Ok && r->Ok_0 is End,
        old(relay).kind is Framed ==> r is Ok && r->Ok_0 is ForwardEnd,
        r matches Ok(RelayStep::End(status)) ==> {
            &&& exit.code is Some ==> status == exit.code->0
            &&& exit.code is None ==> status == 128 + exit.signal->0
        },
        r matches Ok(RelayStep::ForwardEnd(status)) ==> {
            &&& exit.code is Some ==> status == exit.code->0
            &&& exit.code is None ==> status == 128 + exit.signal->0
        },
        *final(relay) == *old(relay),
{
}

/// A replay's end is passed on exactly if everything that it names as retained
/// was passed on before and its limit is that of the opening. The status is the
/// command's, but never zero where output is not complete, and one where no exit
/// is known.
pub proof fn replay_ends_are_held_to_delivery(
    relay: &mut Relay,
    frame: Frame,
    fact: OutputFact,
    r: Result<RelayStep, ProxyError>,
)
    requires
        frame == Frame::OutputEnd(fact),
        fact.leader_exit is Some ==> fact.leader_exit->0.is_actual(),
        call_ensures(Relay::frame, (relay, &frame), r),
    ensures
        r is Ok <==> old(relay).kind is Bounded && fact.limit == old(relay).limit
            && fact.stdout.retained == old(relay).stdout_position && fact.stderr.retained == old(relay).stderr_position,
        r is Ok ==> r->Ok_0 is ForwardEnd,
        r matches Ok(RelayStep::ForwardEnd(status)) ==> {
            let complete = fact.first_stop is None && fact.io_inflight == 0
                && fact.stdout.prefix_complete && fact.stderr.prefix_complete
                && fact.stdout.collection is Eof && fact.stderr.collection is Eof;
            &&& fact.leader_exit is None ==> status == 1
            &&& fact.leader_exit matches Some(exit) ==> {
                &&& exit.code is None ==> status == 128 + exit.signal->0
                &&& exit.code is Some && exit.code->0 != 0 ==> status == exit.code->0
                &&& exit.code == Some(0i32) && complete ==> status == 0
                &&& exit.code == Some(0i32) && !complete ==> status == 1
            }
        },
        r is Err && old(relay).kind !is Bounded ==> r->Err_0 is WrongDirection,
        r is Err && old(relay).kind is Bounded && fact.limit != old(relay).limit
            ==> r->Err_0 is LimitChanged,
        r is Err && old(relay).kind is Bounded && fact.limit == old(relay).limit
            ==> r->Err_0 is EndMismatch,
        *final(relay) == *old(relay),
{
}

/// Framed output is passed on exactly if it continues its stream where the relay
/// stands, and moves the relay to its end. Output of one stream never moves the
/// other.
pub proof fn framed_output_continues_its_stream(
    relay: &mut Relay,
    frame: Frame,
    stream: Stream,
    offset: u64,
    data: Vec<u8>,
    r: Result<RelayStep, ProxyError>,
)
    requires
        old(relay).kind !is Raw,
        frame == (match stream {
            Stream::Stdout => Frame::StdoutData { offset, data },
            Stream::Stderr => Frame::StderrData { offset, data },
        }),
        call_ensures(Relay::frame, (relay, &frame), r),
    ensures
        ({
            let at = match stream {
                Stream::Stdout => old(relay).stdout_position,
                Stream::Stderr => old(relay).stderr_position,
            };
            &&& r is Ok <==> offset == at && offset + data@.len() <= u64::MAX
            &&& r is Ok ==> r->Ok_0 is Forward
            &&& r is Err ==> *final(relay) == *old(relay) && (r->Err_0 is NotContiguous <==> offset
                != at)
            &&& r is Ok && stream is Stdout ==> final(relay).stdout_position == at + data@.len()
                && final(relay).stderr_position == old(relay).stderr_position
            &&& r is Ok && stream is Stderr ==> final(relay).stderr_position == at + data@.len()
                && final(relay).stdout_position == old(relay).stdout_position
            &&& final(relay).stdin_position == old(relay).stdin_position
            &&& final(relay).limit == old(relay).limit
            &&& final(relay).kind == old(relay).kind
        }),
{
}

/// Raw output is written byte for byte from where the stream stands to where the
/// frame ends: nothing twice, nothing left out. What was written before is not
/// written again, and a gap is refused.
pub proof fn raw_output_is_written_once(
    relay: &mut Relay,
    frame: Frame,
    stream: Stream,
    offset: u64,
    data: Vec<u8>,
    r: Result<RelayStep, ProxyError>,
)
    requires
        old(relay).kind is Raw,
        offset + data@.len() <= u64::MAX,
        frame == (match stream {
            Stream::Stdout => Frame::StdoutData { offset, data },
            Stream::Stderr => Frame::StderrData { offset, data },
        }),
        call_ensures(Relay::frame, (relay, &frame), r),
    ensures
        ({
            let end = offset + data@.len();
            let (at, now, other, other_now) = match stream {
                Stream::Stdout => (
                    old(relay).stdout_position,
                    final(relay).stdout_position,
                    old(relay).stderr_position,
                    final(relay).stderr_position,
                ),
                Stream::Stderr => (
                    old(relay).stderr_position,
                    final(relay).stderr_position,
                    old(relay).stdout_position,
                    final(relay).stdout_position,
                ),
            };
            &&& r is Err <==> offset > at
            &&& r is Err ==> r->Err_0 == ProxyError::OutputGap(at) && *final(relay) == *old(relay)
            &&& other_now == other
            &&& r is Ok && end <= at ==> r->Ok_0 is Quiet && now == at
            &&& r is Ok && end > at ==> r->Ok_0 is Write && now == end
            &&& r matches Ok(RelayStep::Write { stream: to, data: written }) ==> {
                &&& to == stream
                &&& at + written@.len() == end
                &&& forall|i: int|
                    0 <= i < written@.len() ==> #[trigger] written@[i] == data@[at - offset + i]
            }
        }),
{
}

/// A receipt is passed on unless it goes back, and is what later ones are held
/// to. A raw relay shows none.
pub proof fn relayed_receipts_never_go_back(
    relay: &mut Relay,
    frame: Frame,
    offset: u64,
    r: Result<RelayStep, ProxyError>,
)
    requires
        frame == (Frame::StdinPosition { offset }),
        call_ensures(Relay::frame, (relay, &frame), r),
    ensures
        old(relay).kind is Raw ==> r is Ok && r->Ok_0 is Quiet && *final(relay) == *old(relay),
        old(relay).kind !is Raw ==> {
            &&& r is Ok <==> offset >= old(relay).stdin_position
            &&& r is Ok ==> r->Ok_0 is Forward && final(relay).stdin_position == offset
            &&& r is Err ==> r->Err_0 is ReceiptRegressed && *final(relay) == *old(relay)
        },
        final(relay).stdout_position == old(relay).stdout_position,
        final(relay).stderr_position == old(relay).stderr_position,
{
}

/// Facts are passed on only with output facts and under the opening's limit, and
/// nothing that a client sends is ever taken from the broker.
pub proof fn foreign_frames_are_refused(
    relay: &mut Relay,
    frame: Frame,
    r: Result<RelayStep, ProxyError>,
)
    requires
        frame is OutputState || frame is StdinData || frame is StdinEof,
        call_ensures(Relay::frame, (relay, &frame), r),
    ensures
        frame is StdinData || frame is StdinEof ==> r is Err && r->Err_0 is WrongDirection,
        frame matches Frame::OutputState(fact) ==> {
            &&& r is Ok <==> old(relay).kind is Bounded && fact.limit == old(relay).limit
            &&& r is Ok ==> r->Ok_0 is Forward
            &&& r is Err && old(relay).kind is Bounded ==> r->Err_0 is LimitChanged
            &&& r is Err && old(relay).kind !is Bounded ==> r->Err_0 is WrongDirection
        },
        *final(relay) == *old(relay),
{
}

/// A relay begins where the broker's opening says, and a stream that ends without
/// a result is a failure unless it is raw.
pub proof fn relays_begin_at_the_opening(
    kind: AttachKind,
    hello: ServerHello,
    relay: Relay,
    status: i32,
)
    requires
        call_ensures(Relay::begin, (kind, &hello), relay),
        call_ensures(Relay::ended, (&relay,), status),
    ensures
        relay.kind == kind,
        relay.stdin_position == hello.offsets.stdin,
        relay.stdout_position == hello.offsets.stdout,
        relay.stderr_position == hello.offsets.stderr,
        hello.output matches Some(fact) ==> relay.limit == fact.limit,
        status == 0 <==> kind is Raw,
        status == 0 || status == 1,
{
}

/// What the broker is asked for is what the client said: its positions, its end of
/// input and force, whichever of client and command line asked for it. A session
/// is created exactly if no positions are named; then output begins at its
/// beginning.
pub proof fn openings_carry_what_was_said(flags: ServerFlags, hello: ClientHello, r: ServerOpening)
    requires
        call_ensures(open, (flags, hello), r),
    ensures
        r matches ServerOpening::Create(asked) ==> {
            &&& hello.offsets is None
            &&& asked.offsets.stdout == 0 && asked.offsets.stderr == 0
            &&& asked.stdin_start == hello.stdin_start
            &&& asked.stdin_eof == hello.stdin_eof
            &&& !asked.force && !flags.force && !hello.force
            &&& flags.output_bounded ==> asked.kind is Bounded && flags.output_limit is Some
                && flags.group_pidfd
            &&& !flags.output_bounded ==> (asked.kind is Framed <==> flags.framed)
            &&& asked.kind is Bounded <==> flags.output_bounded
        },
        r matches ServerOpening::Attach(asked) ==> {
            &&& Some(asked.offsets) == hello.offsets
            &&& asked.stdin_start == hello.stdin_start
            &&& asked.stdin_eof == hello.stdin_eof
            &&& asked.force <==> flags.force || hello.force
            &&& !flags.group_pidfd && flags.output_limit is None
            &&& asked.kind is Bounded <==> flags.output_bounded
            &&& !flags.output_bounded ==> (asked.kind is Framed <==> flags.framed)
        },
        r matches ServerOpening::DeclareEof { offset } ==> {
            &&& hello.action is Some
            &&& hello.stdin_eof == Some(offset)
            &&& !flags.force && !hello.force && !flags.framed && !flags.group_pidfd
        },
        hello.action is Some ==> r is DeclareEof || r is Refuse,
{
}

/// An opening that breaks no rule is followed; and each refusal names a rule that
/// is broken.
pub proof fn only_broken_rules_refuse_openings(
    flags: ServerFlags,
    hello: ClientHello,
    r: ServerOpening,
)
    requires
        call_ensures(open, (flags, hello), r),
    ensures
        ({
            let force = flags.force || hello.force;
            let creating = hello.offsets is None;
            let broken_new = flags.group_pidfd && (!creating || hello.action is Some)
                || flags.output_limit is Some && !creating;
            let broken_control = hello.action is Some && (flags.framed || force || hello.stdin_eof
                is None);
            let broken_data = hello.action is None && ((creating && force) || (!force
                && hello.stdin_eof is Some && hello.stdin_eof->0 < hello.stdin_start) || (creating
                && flags.output_bounded && (flags.output_limit is None || !flags.group_pidfd)));
            &&& r is Refuse <==> broken_new || broken_control || broken_data
            &&& r matches ServerOpening::Refuse(why) ==> match why {
                ServerRefusal::GroupOnlyNew => flags.group_pidfd && (!creating || hello.action
                    is Some),
                ServerRefusal::LimitOnlyNew => flags.output_limit is Some && !creating,
                ServerRefusal::LimitRequired => creating && flags.output_bounded,
                ServerRefusal::FramedControl => flags.framed && hello.action is Some,
                ServerRefusal::ForceControl => force && hello.action is Some,
                ServerRefusal::EofWithoutPosition => hello.action is Some && hello.stdin_eof is None,
                ServerRefusal::ForceCreates => creating && force && hello.action is None,
                ServerRefusal::EofBeforeStart => hello.stdin_eof is Some && hello.stdin_eof->0
                    < hello.stdin_start && !force,
            }
        }),
{
}

/// A request asks for the form, the positions, the input and the force of its
/// opening, and for nothing else.
pub proof fn requests_carry_their_opening(asked: AttachmentOpen, r: BrokerRequest)
    requires
        call_ensures(attach_request, (asked,), r),
    ensures
        r is Attach <==> asked.kind is Raw,
        r is AttachFramedV1 <==> asked.kind is Framed,
        r is AttachOutputV1 <==> asked.kind is Bounded,
        ({
            let (offsets, stdin_start, stdin_eof, force) = match r {
                BrokerRequest::Attach { offsets, stdin_start, stdin_eof, force }
                | BrokerRequest::AttachFramedV1 { offsets, stdin_start, stdin_eof, force }
                | BrokerRequest::AttachOutputV1 { offsets, stdin_start, stdin_eof, force } => (
                    offsets,
                    stdin_start,
                    stdin_eof,
                    force,
                ),
                _ => (asked.offsets, 0u64, None, false),
            };
            &&& offsets.stdout == asked.offsets.stdout
            &&& offsets.stderr == asked.offsets.stderr
            &&& stdin_start == asked.stdin_start
            &&& stdin_eof == asked.stdin_eof
            &&& force == asked.force
        }),
{
}

/// A framed opening is accepted only if the broker confirms the form and retains
/// output, and a bounded one only if it also carries facts and no exit; a raw one
/// needs no confirmation.
pub proof fn forms_are_confirmed(kind: AttachKind, hello: ServerHello, r: Option<ProxyError>)
    requires
        call_ensures(check_hello, (kind, &hello), r),
    ensures
        kind is Raw ==> r is None,
        kind is Framed ==> {
            let confirmed = hello.attachment is Some && hello.attachment->0@ == "framed-v1"@;
            let exit_possible = match hello.exit {
                None => true,
                Some(exit) => (exit.signal is None && exit.code is Some && 0 <= exit.code->0 <= 255)
                    || (exit.code is None && exit.signal is Some && 1 <= exit.signal->0 <= 127),
            };
            &&& r is None <==> confirmed && !hello.nobuffer && exit_possible
            &&& !confirmed || hello.nobuffer ==> r == Some(ProxyError::FramedUnconfirmed)
        },
        kind is Bounded ==> {
            let confirmed = hello.attachment is Some && hello.attachment->0@ == "framed-output-v1"@;
            let shape = hello.output is Some && hello.exit is None && hello.stdout_eof is None
                && hello.stderr_eof is None;
            &&& r is None ==> confirmed && !hello.nobuffer && shape && hello.output->0.verdict(
                false,
            ) is Ok
            &&& confirmed && !hello.nobuffer && shape && hello.output->0.verdict(false) is Ok
                ==> r is None
            &&& !confirmed || hello.nobuffer || !shape ==> r == Some(ProxyError::BoundedUnconfirmed)
        },
{
}

/// A reply is an error exactly if it was read and names one.
pub proof fn errors_are_named(reply: Option<ErrorResponse>, r: bool)
    requires
        call_ensures(is_error_reply, (&reply,), r),
    ensures
        reply is None ==> !r,
        reply matches Some(read) ==> (r <==> read.error is Some),
{
}

/// Raw input is read up to its declared end and never behind it, in parts of at
/// most 32768 bytes, and there is always a next part before the end.
pub proof fn raw_input_stops_at_its_end(forward: RawForward, already_eof: bool, r: RawForwardStep)
    requires
        call_ensures(RawForward::next, (&forward, already_eof), r),
    ensures
        already_eof ==> r is Rest,
        r matches RawForwardStep::Read(count) ==> {
            &&& 0 < count <= 32_768
            &&& forward.eof matches Some(end) ==> forward.position + count <= end
            &&& forward.eof is None ==> count == 32_768
            &&& forward.eof matches Some(end) ==> forward.position + count == end || count == 32_768
        },
        !already_eof && forward.eof is None ==> r is Read,
        !already_eof && forward.eof is Some ==> {
            &&& forward.position < forward.eof->0 <==> r is Read
            &&& forward.position == forward.eof->0 <==> r is Rest
            &&& r is Fail ==> r == RawForwardStep::Fail(ProxyError::BeyondDeclaredEof)
        },
{
}

/// Parts of raw input that are framed one after the other stand one behind the
/// other.
pub proof fn raw_parts_follow_each_other(
    forward: &mut RawForward,
    data: Vec<u8>,
    r: Result<Frame, ProxyError>,
)
    requires
        call_ensures(RawForward::frame, (forward, data), r),
    ensures
        r is Ok <==> old(forward).position + data@.len() <= u64::MAX,
        r is Ok ==> (r->Ok_0 matches Frame::StdinData { offset, data: carried } && offset == old(forward).position && carried@ == data@ && final(forward).position == offset + data@.len()),
        r is Err ==> final(forward).position == old(forward).position,
        final(forward).eof == old(forward).eof,
{
}

/// A broker that answers is taken, whatever else is known. A session is removed
/// only where its command cannot run: never with group control once time is up,
/// and never if the command may have been started when the broker ended.
pub proof fn sessions_are_removed_only_before_they_start(
    connected: bool,
    expired: bool,
    child: ChildState,
    hardened: bool,
    may_have_started: bool,
    r: StartStep,
)
    requires
        call_ensures(await_broker, (connected, expired, child, hardened, may_have_started), r),
    ensures
        r is Connected <==> connected,
        r is Poll <==> !connected && !expired && child is Running,
        r is ExitedEarly ==> child is Exited && !may_have_started && !expired,
        r is NotReady ==> expired && !hardened,
        r is WaitFailed ==> child is WaitFailed && !hardened,
        r is ReadinessUnknown <==> !connected && expired && hardened,
        r is WaitUnknown <==> !connected && !expired && hardened && child is WaitFailed,
        r is ExitedUnknown <==> !connected && !expired && child is Exited && may_have_started,
        !connected && !expired && child is Exited && !may_have_started ==> r is ExitedEarly,
{
}

/// Looking for a session goes on until it answers, is not there or time is up.
pub proof fn sessions_are_looked_for_in_time(
    present: bool,
    connected: bool,
    expired: bool,
    r: ReachStep,
)
    requires
        call_ensures(reach_broker, (present, connected, expired), r),
    ensures
        r is Missing <==> !present,
        r is Connected <==> present && connected,
        r is Poll <==> present && !connected && !expired,
        r is Unreachable <==> present && !connected && expired,
{
}

/// A session that is not there is told in the words and with the code by which a
/// client knows it, and no other failure is.
pub proof fn missing_sessions_are_told_apart(step: ReachStep, text: String, code: Option<String>)
    requires
        call_ensures(ReachStep::message, (&step,), text),
        call_ensures(ReachStep::code, (&step,), code),
    ensures
        step is Missing ==> text@ == "session does not exist"@,
        step !is Missing ==> text@ == "cannot connect to session broker"@,
        step is Missing <==> code is Some,
        code matches Some(name) ==> name@ == "session_missing"@,
{
}

/// Each control asks for its own request: no two controls share one, and none
/// asks for an attachment.
pub proof fn controls_ask_for_their_own(
    one: Control,
    other: Control,
    r: BrokerRequest,
    s: BrokerRequest,
)
    requires
        call_ensures(control_request, (one,), r),
        call_ensures(control_request, (other,), s),
    ensures
        r == s ==> one == other,
        r is Pid <==> one is Pid,
        r is Session <==> one is Session,
        r is Cancel <==> one is Cancel,
        r is CancelGroupPidfd <==> one is CancelGroupPidfd,
        r is CancelOutputV1 <==> one is CancelOutput,
{
}

/// A cancellation with output facts asks for them, one that requires group control
/// never asks for less, and one that asks for neither asks for neither.
pub proof fn cancellations_ask_for_what_they_require(group: bool, bounded: bool, r: Control)
    requires
        call_ensures(cancel_control, (group, bounded), r),
    ensures
        r is CancelOutput <==> bounded,
        r is CancelGroupPidfd <==> group && !bounded,
        r is Cancel <==> !group && !bounded,
{
}

/// A control reply reports success exactly if it is JSON without an error text;
/// an error text is passed on as it stands.
pub proof fn refusals_are_passed_on(error: JsonAt, r: Option<ControlError>)
    requires
        call_ensures(check_reply_found, (error,), r),
    ensures
        r is None <==> !(error is Invalid) && !(error is Text),
        error is Invalid ==> r is Some && r->0 is Invalid,
        error matches JsonAt::Text(text) ==> (r matches Some(ControlError::Refused(told)) && told@
            == text@),
{
}

/// A process number is taken only from a reply without an error, and as it stands
/// there.
pub proof fn process_numbers_are_taken_as_they_stand(
    error: JsonAt,
    pid: JsonAt,
    r: Result<i64, ControlError>,
)
    requires
        call_ensures(pid_found, (error, &pid), r),
    ensures
        error is Invalid ==> r is Err && r->Err_0 is Invalid,
        error is Text ==> r is Err && r->Err_0 is Refused,
        !(error is Invalid) && !(error is Text) ==> {
            &&& r matches Ok(number) ==> (pid matches JsonAt::Number { signed, .. } && signed
                == Some(number))
            &&& r is Err ==> r->Err_0 is NoPid && (pid matches JsonAt::Number { signed, .. }
                ==> signed is None)
        },
{
    assert(control_view(r) == pid_verdict(error@, pid@));
}

/// A cancellation succeeds exactly if the reply has no error, the capability that
/// was required, an exit and an outcome; and then it ends with the command's own
/// exit, whatever the outcome was.
pub proof fn cancellations_end_with_the_exit(
    error: JsonAt,
    required: bool,
    verified: bool,
    exit: Option<Result<ExitResult, String>>,
    outcome: Option<Result<CancelOutcome, String>>,
    r: Result<ExitResult, ControlError>,
)
    requires
        call_ensures(cancel_found, (error, required, verified, exit, outcome), r),
    ensures
        ({
            let refused = error is Invalid || error is Text;
            let has_exit = exit matches Some(Ok(_));
            let has_outcome = outcome matches Some(Ok(_));
            &&& r is Ok <==> !refused && (required ==> verified) && has_exit && has_outcome
            &&& r matches Ok(told) ==> exit == Some(Ok::<ExitResult, String>(told))
            &&& error is Invalid ==> r->Err_0 is Invalid
            &&& error is Text ==> r->Err_0 is Refused
            &&& !refused && required && !verified ==> r->Err_0 is Unverified
            &&& !refused && (required ==> verified) && exit is None ==> r->Err_0 is NoExit
            &&& !refused && (required ==> verified) && has_exit && outcome is None
                ==> r->Err_0 is NoOutcome
        }),
{
    assert(control_view(r) == cancel_verdict(
        error@,
        required,
        verified,
        member_view(exit),
        member_view(outcome),
    ));
}

/// The reply to a cancellation with output facts gives the facts as they stand,
/// and only if it names finite output; with an error beside them it ends with a
/// failure, and without them its error is passed on.
pub proof fn bounded_cancellations_need_verified_facts(
    error: JsonAt,
    verified: bool,
    fact: Option<Result<OutputFact, String>>,
    r: Result<Option<OutputFact>, ControlError>,
)
    requires
        call_ensures(bounded_cancel_found, (error, verified, fact), r),
    ensures
        ({
            let has_fact = fact matches Some(Ok(_));
            &&& r is Ok <==> !(error is Invalid) && verified && has_fact
            &&& r matches Ok(told) ==> {
                &&& error is Text <==> told is None
                &&& told matches Some(facts) ==> fact == Some(Ok::<OutputFact, String>(facts))
            }
            &&& error is Invalid ==> r->Err_0 is Invalid
            &&& error is Text && fact is None ==> r->Err_0 is Refused
            &&& !(error is Invalid) && !(error is Text) && fact is None ==> r->Err_0 is Unbounded
            &&& !(error is Invalid) && fact is Some && !verified ==> r->Err_0 is Unbounded
        }),
{
    assert(control_view(r) == bounded_cancel_verdict(error@, verified, member_view(fact)));
}

/// What stands at `error` of a reply decides whether it reports success, and what
/// stands at `pid` is its process number.
pub proof fn replies_are_read_at_their_members(
    line: &[u8],
    checked: Option<ControlError>,
    pid: Result<i64, ControlError>,
)
    requires
        call_ensures(check_reply, (line,), checked),
        call_ensures(read_pid, (line,), pid),
    ensures
        ({
            let error = json::json_lookup(line@, "/error"@);
            let number = json::json_lookup(line@, "/pid"@);
            &&& checked is None <==> !(error is Invalid) && !(error is Text)
            &&& error matches JsonView::Text(text) ==> (checked matches Some(
                ControlError::Refused(told),
            ) && told@ == text)
            &&& pid is Ok <==> checked is None && (number matches JsonView::Number { signed, .. }
                && signed is Some)
            &&& pid matches Ok(found) ==> (number matches JsonView::Number { signed, .. } && signed
                == Some(found))
        }),
{
    assert(control_view(pid) == pid_verdict(
        json::json_lookup(line@, "/error"@),
        json::json_lookup(line@, "/pid"@),
    ));
}

/// A cancellation reply ends with the exit that stands in it, if it reports success
/// and, where group control is required, names it among its session's capabilities.
pub proof fn cancellation_replies_are_read_at_their_members(
    line: &[u8],
    required: bool,
    exit: Option<Result<ExitResult, String>>,
    outcome: Option<Result<CancelOutcome, String>>,
    r: Result<ExitResult, ControlError>,
)
    requires
        call_ensures(read_cancel, (line, required, exit, outcome), r),
    ensures
        ({
            let error = json::json_lookup(line@, "/error"@);
            let named = json::names_capability(line@, "group-pidfd-cancel-v1"@);
            let has_exit = exit matches Some(Ok(_));
            let has_outcome = outcome matches Some(Ok(_));
            &&& r is Ok <==> !(error is Invalid) && !(error is Text) && (required ==> named)
                && has_exit && has_outcome
            &&& r matches Ok(told) ==> exit == Some(Ok::<ExitResult, String>(told))
        }),
{
    assert(control_view(r) == cancel_verdict(
        json::json_lookup(line@, "/error"@),
        required,
        json::names_capability(line@, GROUP_PIDFD_CAPABILITY@),
        member_view(exit),
        member_view(outcome),
    ));
}

/// A cancellation with output facts ends with the facts of its reply, if it names
/// finite output among its session's capabilities.
pub proof fn bounded_replies_are_read_at_their_members(
    line: &[u8],
    fact: Option<Result<OutputFact, String>>,
    r: Result<Option<OutputFact>, ControlError>,
)
    requires
        call_ensures(read_bounded_cancel, (line, fact), r),
    ensures
        ({
            let error = json::json_lookup(line@, "/error"@);
            let named = json::names_capability(line@, "finite-output-v1"@);
            let has_fact = fact matches Some(Ok(_));
            &&& r is Ok <==> !(error is Invalid) && named && has_fact
            &&& r matches Ok(told) ==> (told is None <==> error is Text) && (told is Some ==> fact
                == Some(Ok::<OutputFact, String>(told->0)))
        }),
{
    assert(control_view(r) == bounded_cancel_verdict(
        json::json_lookup(line@, "/error"@),
        json::names_capability(line@, CAPABILITY@),
        member_view(fact),
    ));
}

/// Where the command may run the diagnostic says that the session stays and creation
/// must not be tried again; and a diagnostic shows what went wrong, as far as it is
/// known.
pub proof fn start_failures_say_what_is_known(
    step: StartStep,
    detail: &str,
    error: &str,
    status: &str,
    r: String,
)
    requires
        call_ensures(start_failure_message, (step, detail, error, status), r),
    ensures
        step is ReadinessUnknown || step is WaitUnknown || step is ExitedUnknown ==> text::occurs(
            r@,
            "; session retained; workload may have started; query the same session, do not retry creation"@,
        ),
        step is WaitUnknown ==> text::occurs(r@, error@),
        step is WaitFailed ==> r@ == error@,
        step is ExitedUnknown ==> text::occurs(r@, status@),
        step is ExitedEarly || step is NotReady ==> (detail@.len() > 0 ==> r@
            == "session broker failed: "@ + detail@),
        step is ExitedEarly && detail@.len() == 0 ==> text::occurs(r@, status@),
        step is NotReady && detail@.len() == 0 ==> r@ == "session broker did not become ready"@,
{
    let kept = "; session retained; workload may have started; query the same session, do not retry creation"@;
    match step {
        StartStep::ReadinessUnknown => {
            reveal_strlit(
                "session broker readiness unknown after dispatch; session retained; workload may have started; query the same session, do not retry creation",
            );
            reveal_strlit(
                "; session retained; workload may have started; query the same session, do not retry creation",
            );
            let at = r@.len() - kept.len();
            assert(r@.subrange(at, at + kept.len()) =~= kept);
        },
        StartStep::WaitUnknown => {
            let at = r@.len() - kept.len();
            assert(r@.subrange(at, at + kept.len()) =~= kept);
            let from = "session broker wait failed after dispatch: "@.len() as int;
            assert(r@.subrange(from, from + error@.len()) =~= error@);
        },
        StartStep::ExitedUnknown => {
            reveal_strlit(
                "); session retained; workload may have started; query the same session, do not retry creation",
            );
            reveal_strlit(
                "; session retained; workload may have started; query the same session, do not retry creation",
            );
            let at = r@.len() - kept.len();
            assert(r@.subrange(at, at + kept.len()) =~= kept);
            let from = "session broker exited after dispatch ("@.len() as int;
            assert(r@.subrange(from, from + status@.len()) =~= status@);
        },
        StartStep::ExitedEarly => {
            if detail@.len() == 0 {
                let from = "session broker exited during startup ("@.len() as int;
                assert(r@.subrange(from, from + status@.len()) =~= status@);
            }
        },
        _ => {},
    }
}

/// A refused opening says why.
pub proof fn refused_openings_say_why(error: ServerRefusal, r: String)
    requires
        call_ensures(ServerRefusal::message, (&error,), r),
    ensures
        error is GroupOnlyNew ==> r@
            == "--group-pidfd is only for new sessions; existing sessions cannot be retrofitted"@,
        error is LimitOnlyNew ==> r@
            == "--output-limit is only for new sessions; existing sessions cannot be retrofitted"@,
        error is LimitRequired ==> r@
            == "creating a bounded session requires --output-limit and --group-pidfd"@,
        error is FramedControl ==> r@
            == "--framed is for data attachments; use the ordinary EOF control"@,
        error is ForceControl ==> r@ == "force is only supported for data attachments"@,
        error is EofWithoutPosition ==> r@ == "stdin-eof requires stdin_eof"@,
        error is ForceCreates ==> r@
            == "force requires attach-only offsets and cannot create a session"@,
        error is EofBeforeStart ==> r@ == "stdin_eof is before stdin_start"@,
{
}

/// An abandoned attachment says why, with the position of a gap.
pub proof fn abandoned_attachments_say_why(error: ProxyError, r: String)
    requires
        call_ensures(ProxyError::message, (&error,), r),
    ensures
        error is FramedUnconfirmed ==> r@
            == "broker did not confirm buffered framed-v1 attachment; no fallback; session retained"@,
        error is BoundedUnconfirmed ==> r@
            == "broker did not confirm framed-output-v1 attachment; no fallback; session retained"@,
        error is NotContiguous ==> r@ == "broker output is not contiguous"@,
        error is ReceiptRegressed ==> r@ == "broker stdin receipt regressed"@,
        error is WrongDirection ==> r@ == "broker sent a client-to-server frame"@,
        error is LimitChanged ==> r@ == "broker changed the output limit"@,
        error is EndMismatch ==> r@ == "replay end does not match the delivered output"@,
        error is BeyondDeclaredEof ==> r@ == "broker stdin position is beyond the declared EOF"@,
        error matches ProxyError::OutputGap(position) ==> r@
            == "broker output contains a gap at byte "@ + text::decimal(position as nat),
{
}

/// A useless reply says why, in the words of the broker where it gave some.
pub proof fn useless_replies_say_why(error: ControlError, r: String)
    requires
        call_ensures(ControlError::message, (&error,), r),
    ensures
        error is Invalid ==> r@ == "broker returned an invalid control response"@,
        error is NoPid ==> r@ == "broker returned an invalid PID response"@,
        error is Unverified ==> r@
            == "broker did not verify group-pidfd-cancel-v1 for this session"@,
        error is Unbounded ==> r@ == "broker did not verify finite-output-v1 for this session"@,
        error is NoExit ==> r@ == "broker returned an invalid cancellation response"@,
        error is NoOutcome ==> r@ == "broker returned no cancellation outcome"@,
        error matches ControlError::Refused(told) ==> r@ == told@,
        error matches ControlError::Malformed(told) ==> r@ == told@,
{
}

} // verus!
