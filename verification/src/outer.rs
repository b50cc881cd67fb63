//! The client side: reruns a transport until the remote command's exit is known
//! and all its output delivered.
use vstd::prelude::*;

use crate::input::InputState;
use crate::json;
use crate::json::{error_of, json_at, JsonAt, JsonView};
use crate::protocol::{ClientAction, ClientHello, ExitResult, OutputOffsets, ServerHello};
use crate::text;
use crate::text::{bytes_copy, decimal_text, join, str_contains};

verus! {

/// The shortest pause before a transport is run again, in milliseconds.
pub const FIRST_BACKOFF: u64 = 100;

/// The longest one.
pub const LAST_BACKOFF: u64 = 5000;

/// Why the client gives up.
#[derive(Clone, Debug)]
pub enum OuterError {
    /// The first line of a transport was not JSON.
    InvalidOpening,
    /// It was JSON but no handshake.
    InvalidHandshake,
    /// A position went back.
    MovedBackwards,
    /// A buffered server skipped output.
    PositionsLost,
    /// The remote side refused.
    Remote(String),
    /// The remote side wants input that never was.
    BeyondLocalEof,
    /// The end of input moved.
    EofChanged,
    /// The remote side refused the end of input.
    EofRefused(String),
    /// The remote side did not confirm the end of input.
    EofUnconfirmed(u64),
}

/// Why the client gives up, in terms of texts.
pub enum OuterErrorView {
    InvalidOpening,
    InvalidHandshake,
    MovedBackwards,
    PositionsLost,
    Remote(Seq<char>),
    BeyondLocalEof,
    EofChanged,
    EofRefused(Seq<char>),
    EofUnconfirmed(u64),
}

impl View for OuterError {
    type V = OuterErrorView;

    open spec fn view(&self) -> OuterErrorView {
        match *self {
            OuterError::InvalidOpening => OuterErrorView::InvalidOpening,
            OuterError::InvalidHandshake => OuterErrorView::InvalidHandshake,
            OuterError::MovedBackwards => OuterErrorView::MovedBackwards,
            OuterError::PositionsLost => OuterErrorView::PositionsLost,
            OuterError::Remote(error) => OuterErrorView::Remote(error@),
            OuterError::BeyondLocalEof => OuterErrorView::BeyondLocalEof,
            OuterError::EofChanged => OuterErrorView::EofChanged,
            OuterError::EofRefused(error) => OuterErrorView::EofRefused(error@),
            OuterError::EofUnconfirmed(offset) => OuterErrorView::EofUnconfirmed(offset),
        }
    }
}

impl OuterErrorView {
    /// The diagnostic for the error.
    pub open spec fn text(self) -> Seq<char> {
        match self {
            OuterErrorView::InvalidOpening => {
                "transport returned an invalid opening JSON message"@
            },
            OuterErrorView::InvalidHandshake => {
                "transport returned an invalid pipekeep handshake"@
            },
            OuterErrorView::MovedBackwards => "server moved an output position backwards"@,
            OuterErrorView::PositionsLost => {
                "buffered server cannot provide the requested output positions"@
            },
            OuterErrorView::Remote(error) => "remote pipekeep: "@ + error,
            OuterErrorView::BeyondLocalEof => "server stdin position is beyond local EOF"@,
            OuterErrorView::EofChanged => "declared stdin EOF changed during attachment"@,
            OuterErrorView::EofRefused(error) => "remote stdin EOF: "@ + error,
            OuterErrorView::EofUnconfirmed(offset) => {
                "remote stdin EOF response did not confirm byte "@ + text::decimal(offset as nat)
            },
        }
    }
}

impl OuterError {
    pub fn message(&self) -> (r: String)
        ensures
            r@ == self@.text(),
    {
        match self {
            OuterError::InvalidOpening => {
                "transport returned an invalid opening JSON message".to_owned()
            },
            OuterError::InvalidHandshake => {
                "transport returned an invalid pipekeep handshake".to_owned()
            },
            OuterError::MovedBackwards => "server moved an output position backwards".to_owned(),
            OuterError::PositionsLost => {
                "buffered server cannot provide the requested output positions".to_owned()
            },
            OuterError::Remote(error) => join("remote pipekeep: ", error.as_str()),
            OuterError::BeyondLocalEof => "server stdin position is beyond local EOF".to_owned(),
            OuterError::EofChanged => "declared stdin EOF changed during attachment".to_owned(),
            OuterError::EofRefused(error) => join("remote stdin EOF: ", error.as_str()),
            OuterError::EofUnconfirmed(offset) => {
                join(
                    "remote stdin EOF response did not confirm byte ",
                    decimal_text(*offset).as_str(),
                )
            },
        }
    }
}

/// What an attempt came to.
#[derive(Clone, Debug)]
pub enum AttemptResult {
    /// The command exited with this status and everything was delivered.
    Exited(i32),
    /// The transport ended. `opened` says whether it had come to a session.
    Disconnected { opened: bool },
    /// The remote side refused.
    ServerError(String),
}

/// The opening message of an attempt: a new session, or the positions wanted of
/// one that may exist.
pub fn attempt_hello(create: bool, delivered: OutputOffsets, input: InputState) -> (r: ClientHello)
    ensures
        r == (ClientHello {
            action: None,
            offsets: if create {
                None
            } else {
                Some(delivered)
            },
            stdin_start: input.start,
            stdin_eof: input.eof,
            force: false,
        }),
{
    ClientHello {
        action: None,
        offsets: if create {
            None
        } else {
            Some(delivered)
        },
        stdin_start: input.start,
        stdin_eof: input.eof,
        force: false,
    }
}

/// Reads the first line of a transport: nothing wrong with it, the error that
/// the remote side reports, or no JSON at all.
pub fn opening_error(line: &[u8]) -> (r: Result<Option<String>, OuterError>)
    ensures
        match json::reply_error(json::json_lookup(line@, "/error"@)) {
            None => r matches Err(error) && error@ == OuterErrorView::InvalidOpening,
            Some(None) => r matches Ok(None),
            Some(Some(text)) => r matches Ok(Some(error)) && error@ == text,
        },
{
    opening_error_of(json_at(line, "/error"))
}

/// Reads what was found at the `error` member of a transport's first line.
pub fn opening_error_of(found: JsonAt) -> (r: Result<Option<String>, OuterError>)
    ensures
        match json::reply_error(found@) {
            None => r matches Err(error) && error@ == OuterErrorView::InvalidOpening,
            Some(None) => r matches Ok(None),
            Some(Some(text)) => r matches Ok(Some(error)) && error@ == text,
        },
{
    match error_of(found) {
        None => Err(OuterError::InvalidOpening),
        Some(error) => Ok(error),
    }
}

/// Whether a handshake contradicts what was delivered.
pub open spec fn handshake_fault(
    delivered: OutputOffsets,
    stdout: u64,
    stderr: u64,
    nobuffer: bool,
) -> Option<OuterErrorView> {
    if stdout < delivered.stdout || stderr < delivered.stderr {
        Some(OuterErrorView::MovedBackwards)
    } else if !nobuffer && (stdout != delivered.stdout || stderr != delivered.stderr) {
        Some(OuterErrorView::PositionsLost)
    } else {
        None
    }
}

/// Takes the positions of a handshake. They never go back, and only an
/// unbuffered server may skip output.
pub fn accept_handshake(delivered: &mut OutputOffsets, server: &ServerHello) -> (r: Result<
    (),
    OuterError,
>)
    ensures
        match r {
            Ok(()) => {
                &&& handshake_fault(
                    *old(delivered),
                    server.offsets.stdout,
                    server.offsets.stderr,
                    server.nobuffer,
                ) is None
                &&& final(delivered).stdout == server.offsets.stdout
                &&& final(delivered).stderr == server.offsets.stderr
            },
            Err(error) => {
                &&& handshake_fault(
                    *old(delivered),
                    server.offsets.stdout,
                    server.offsets.stderr,
                    server.nobuffer,
                ) == Some(error@)
                &&& *final(delivered) == *old(delivered)
            },
        },
{
    if server.offsets.stdout < delivered.stdout || server.offsets.stderr < delivered.stderr {
        return Err(OuterError::MovedBackwards);
    }
    if !server.nobuffer && (server.offsets.stdout != delivered.stdout || server.offsets.stderr
        != delivered.stderr) {
        return Err(OuterError::PositionsLost);
    }
    delivered.stdout = server.offsets.stdout;
    delivered.stderr = server.offsets.stderr;
    Ok(())
}

/// What ended the relaying of an attempt first.
#[derive(Clone, Copy, Debug, PartialEq, Eq, Structural)]
pub enum Stop {
    /// The transport process ended; `failed` if waiting for it failed.
    Child { failed: bool },
    /// Sending input ended, or a new attachment is needed.
    Sender,
    /// Copying stdout ended; `failed` if it failed.
    Stdout { failed: bool },
    /// Copying stderr ended; `failed` if it failed.
    Stderr { failed: bool },
}

/// How an attempt is wound up.
#[derive(Clone, Copy, Debug, PartialEq, Eq, Structural)]
pub struct WindUp {
    /// The transport is killed if it has not ended.
    pub finish_transport: bool,
    /// The transport is waited for.
    pub wait_child: bool,
    /// The end of stdout is still waited for.
    pub await_stdout: bool,
    /// The end of stderr is still waited for.
    pub await_stderr: bool,
}

/// How an attempt is wound up after `stop`.
pub fn wind_up(stop: Stop) -> (r: WindUp)
    ensures
        r.finish_transport == (match stop {
            Stop::Child { .. } => false,
            Stop::Sender => true,
            Stop::Stdout { failed } => failed,
            Stop::Stderr { failed } => failed,
        }),
        r.wait_child == (match stop {
            Stop::Stdout { failed } => !failed,
            Stop::Stderr { failed } => !failed,
            _ => false,
        }),
        r.await_stdout == !(stop is Stdout),
        r.await_stderr == !(stop is Stderr),
{
    match stop {
        Stop::Child { .. } => WindUp {
            finish_transport: false,
            wait_child: false,
            await_stdout: true,
            await_stderr: true,
        },
        Stop::Sender => WindUp {
            finish_transport: true,
            wait_child: false,
            await_stdout: true,
            await_stderr: true,
        },
        Stop::Stdout { failed } => WindUp {
            finish_transport: failed,
            wait_child: !failed,
            await_stdout: false,
            await_stderr: true,
        },
        Stop::Stderr { failed } => WindUp {
            finish_transport: failed,
            wait_child: !failed,
            await_stdout: true,
            await_stderr: false,
        },
    }
}

/// Where the error comes from that ends the client.
#[derive(Clone, Copy, Debug, PartialEq, Eq, Structural)]
pub enum Fatal {
    Child,
    Stdout,
    Stderr,
}

/// Which failure ends the client, if one does: the first, then stdout's, then
/// stderr's. Failing to send input is no such failure.
pub open spec fn fatal_of(stop: Stop, stdout_failed: bool, stderr_failed: bool) -> Option<Fatal> {
    match stop {
        Stop::Child { failed } if failed => Some(Fatal::Child),
        Stop::Stdout { failed } if failed => Some(Fatal::Stdout),
        Stop::Stderr { failed } if failed => Some(Fatal::Stderr),
        _ => if !(stop is Stdout) && stdout_failed {
            Some(Fatal::Stdout)
        } else if !(stop is Stderr) && stderr_failed {
            Some(Fatal::Stderr)
        } else {
            None
        },
    }
}

/// Decides which failure ends the client. The last two arguments say how
/// copying ended where it was still waited for.
pub fn first_fatal(stop: Stop, stdout_failed: bool, stderr_failed: bool) -> (r: Option<Fatal>)
    ensures
        r == fatal_of(stop, stdout_failed, stderr_failed),
{
    match stop {
        Stop::Child { failed } => {
            if failed {
                return Some(Fatal::Child);
            }
        },
        Stop::Stdout { failed } => {
            if failed {
                return Some(Fatal::Stdout);
            }
            return if stderr_failed {
                Some(Fatal::Stderr)
            } else {
                None
            };
        },
        Stop::Stderr { failed } => {
            if failed {
                return Some(Fatal::Stderr);
            }
            return if stdout_failed {
                Some(Fatal::Stdout)
            } else {
                None
            };
        },
        Stop::Sender => {},
    }
    if stdout_failed {
        Some(Fatal::Stdout)
    } else if stderr_failed {
        Some(Fatal::Stderr)
    } else {
        None
    }
}

/// The retained exit of a handshake once everything up to the advertised ends
/// was delivered.
pub open spec fn settled_exit(
    exit: Option<ExitResult>,
    stdout_eof: Option<u64>,
    stderr_eof: Option<u64>,
    delivered: OutputOffsets,
) -> Option<ExitResult> {
    if stdout_eof is Some && delivered.stdout >= stdout_eof->0 && stderr_eof is Some
        && delivered.stderr >= stderr_eof->0 {
        exit
    } else {
        None
    }
}

/// What an attempt came to that was relayed to its end. Only the retained exit
/// counts, never the status of the transport.
pub fn relayed(server: &ServerHello, delivered: OutputOffsets) -> (r: AttemptResult)
    requires
        server.exit is Some ==> server.exit->0.has_status(),
    ensures
        match settled_exit(server.exit, server.stdout_eof, server.stderr_eof, delivered) {
            Some(exit) => r matches AttemptResult::Exited(code) && code == exit.status(),
            None => r matches AttemptResult::Disconnected { opened } && opened,
        },
{
    if let Some(exit) = &server.exit {
        let stdout_complete = match server.stdout_eof {
            Some(end) => delivered.stdout >= end,
            None => false,
        };
        let stderr_complete = match server.stderr_eof {
            Some(end) => delivered.stderr >= end,
            None => false,
        };
        if stdout_complete && stderr_complete {
            return AttemptResult::Exited(exit.process_code());
        }
    }
    AttemptResult::Disconnected { opened: true }
}

/// What the client keeps between attempts.
#[derive(Clone, Copy, Debug, PartialEq, Eq, Structural)]
pub struct OuterRun {
    /// Whether the next attempt creates the session.
    pub create: bool,
    /// Whether some attempt came to the session.
    pub established: bool,
    /// The next pause, in milliseconds.
    pub backoff: u64,
}

/// What the client does after an attempt.
#[derive(Clone, Debug)]
pub enum OuterStep {
    /// Ends with this status.
    Exit(i32),
    /// Pauses so many milliseconds, then attempts again.
    Pause(u64),
    /// Attempts again at once.
    Again,
    /// Ends with this error.
    Fail(OuterError),
}

/// The message of a session that another client holds.
pub open spec fn attached_text() -> Seq<char> {
    "session already has an attached client"@
}

/// The message of a session that does not exist.
pub open spec fn missing_text() -> Seq<char> {
    "session does not exist"@
}

impl OuterRun {
    /// What holds between attempts: a session that was reached is never created
    /// again, and pauses stay within their bounds.
    pub open spec fn valid(self) -> bool {
        &&& self.established ==> !self.create
        &&& FIRST_BACKOFF <= self.backoff <= LAST_BACKOFF
    }

    /// The pause of a disconnection.
    pub open spec fn pause(self, opened: bool) -> u64 {
        if opened {
            FIRST_BACKOFF
        } else {
            self.backoff
        }
    }

    /// The state after a disconnection.
    pub open spec fn disconnected(self, opened: bool) -> OuterRun {
        let pause = self.pause(opened);
        OuterRun {
            create: false,
            established: self.established || opened,
            backoff: if pause * 2 <= LAST_BACKOFF {
                (pause * 2) as u64
            } else {
                LAST_BACKOFF
            },
        }
    }

    pub fn new() -> (r: OuterRun)
        ensures
            r == (OuterRun { create: true, established: false, backoff: FIRST_BACKOFF }),
            r.valid(),
    {
        OuterRun { create: true, established: false, backoff: FIRST_BACKOFF }
    }

    /// Decides what follows an attempt. After a disconnection the session is
    /// looked for before it is created again, since a creation may have reached
    /// the remote side without an answer.
    pub fn after(&mut self, result: AttemptResult) -> (r: OuterStep)
        requires
            old(self).valid(),
        ensures
            final(self).valid(),
            match result {
                AttemptResult::Exited(code) => {
                    &&& r matches OuterStep::Exit(status) && status == code
                    &&& *final(self) == *old(self)
                },
                AttemptResult::Disconnected { opened } => {
                    &&& r matches OuterStep::Pause(pause) && pause == old(self).pause(opened)
                    &&& *final(self) == old(self).disconnected(opened)
                },
                AttemptResult::ServerError(error) => if text::occurs(error@, attached_text()) {
                    &&& r matches OuterStep::Pause(pause) && pause == FIRST_BACKOFF
                    &&& *final(self) == *old(self)
                } else if !old(self).create && !old(self).established && text::occurs(
                    error@,
                    missing_text(),
                ) {
                    &&& r is Again
                    &&& *final(self) == (OuterRun { create: true, ..*old(self) })
                } else {
                    &&& r matches OuterStep::Fail(fault) && fault@ == OuterErrorView::Remote(error@)
                    &&& *final(self) == *old(self)
                },
            },
    {
        match result {
            AttemptResult::Exited(code) => OuterStep::Exit(code),
            AttemptResult::Disconnected { opened } => {
                self.create = false;
                if opened {
                    self.established = true;
                    self.backoff = FIRST_BACKOFF;
                }
                let pause: u64 = self.backoff;
                self.backoff = if pause * 2 <= LAST_BACKOFF {
                    pause * 2
                } else {
                    LAST_BACKOFF
                };
                OuterStep::Pause(pause)
            },
            AttemptResult::ServerError(error) => {
                if str_contains(error.as_str(), "session already has an attached client") {
                    return OuterStep::Pause(FIRST_BACKOFF);
                }
                if !self.create && !self.established && str_contains(
                    error.as_str(),
                    "session does not exist",
                ) {
                    self.create = true;
                    return OuterStep::Again;
                }
                OuterStep::Fail(OuterError::Remote(error))
            },
        }
    }
}

/// What sending raw input does with the next part of it.
#[derive(Clone, Debug)]
pub enum RawStdinStep {
    /// Write the bytes; the position is behind them.
    Write(Vec<u8>),
    /// The position is no longer kept: a new attachment has to say so.
    Reattach,
    /// Tell the remote side that input ends here, by another invocation, and
    /// keep this one open.
    DeclareEof(u64),
    /// There is nothing more to send. The transport's input stays open.
    Rest,
    /// Wait for more input.
    Wait,
    Fail(OuterError),
}

/// The sending of raw input on one attachment.
#[derive(Clone, Copy, Debug, PartialEq, Eq, Structural)]
pub struct RawStdinSender {
    pub position: u64,
    pub declared_eof: Option<u64>,
}

impl RawStdinSender {
    /// Begins at the position that the server asked for. A server whose input
    /// has ended gets none.
    pub fn begin(position: u64, declared_eof: Option<u64>, server_eof: bool) -> (r: Option<Self>)
        ensures
            match r {
                None => server_eof,
                Some(sender) => !server_eof && sender == (RawStdinSender { position, declared_eof }),
            },
    {
        if server_eof {
            None
        } else {
            Some(RawStdinSender { position, declared_eof })
        }
    }

    /// Takes bytes of input that stand at `offset`.
    pub fn data(&mut self, offset: u64, data: &[u8]) -> (r: RawStdinStep)
        requires
            offset + data@.len() <= u64::MAX,
        ensures
            if offset != old(self).position {
                r is Reattach && *final(self) == *old(self)
            } else {
                &&& r matches RawStdinStep::Write(bytes) && bytes@ == data@
                &&& *final(self) == (RawStdinSender {
                    position: (offset + data@.len()) as u64,
                    ..*old(self)
                })
            },
    {
        if offset != self.position {
            return RawStdinStep::Reattach;
        }
        self.position = offset + data.len() as u64;
        RawStdinStep::Write(bytes_copy(data))
    }

    /// Takes the end of input.
    pub fn eof(&self, offset: u64) -> (r: RawStdinStep)
        ensures
            if offset != self.position {
                r matches RawStdinStep::Fail(error) && error@ == OuterErrorView::BeyondLocalEof
            } else {
                match self.declared_eof {
                    Some(declared) => if declared != offset {
                        r matches RawStdinStep::Fail(error) && error@ == OuterErrorView::EofChanged
                    } else {
                        r is Rest
                    },
                    None => r matches RawStdinStep::DeclareEof(at) && at == offset,
                }
            },
    {
        if offset != self.position {
            return RawStdinStep::Fail(OuterError::BeyondLocalEof);
        }
        match self.declared_eof {
            Some(declared) => {
                if declared != offset {
                    RawStdinStep::Fail(OuterError::EofChanged)
                } else {
                    RawStdinStep::Rest
                }
            },
            None => RawStdinStep::DeclareEof(offset),
        }
    }
}

/// The message that declares the end of input.
pub fn eof_hello(offset: u64) -> (r: ClientHello)
    ensures
        r == (ClientHello {
            action: Some(ClientAction::StdinEof),
            offsets: None,
            stdin_start: 0,
            stdin_eof: Some(offset),
            force: false,
        }),
{
    ClientHello {
        action: Some(ClientAction::StdinEof),
        offsets: None,
        stdin_start: 0,
        stdin_eof: Some(offset),
        force: false,
    }
}

/// What the answer to a declared end of input means.
pub open spec fn eof_verdict(error: JsonView, at: JsonView, offset: u64) -> Option<OuterErrorView> {
    match json::reply_error(error) {
        None => Some(OuterErrorView::InvalidOpening),
        Some(Some(text)) => Some(OuterErrorView::EofRefused(text)),
        Some(None) => if at.unsigned() == Some(offset) {
            None
        } else {
            Some(OuterErrorView::EofUnconfirmed(offset))
        },
    }
}

/// Reads what was found in the answer to a declared end of input.
pub fn check_eof_found(error: JsonAt, at: JsonAt, offset: u64) -> (r: Option<OuterError>)
    ensures
        match r {
            None => eof_verdict(error@, at@, offset) is None,
            Some(fault) => eof_verdict(error@, at@, offset) == Some(fault@),
        },
{
    match error_of(error) {
        None => Some(OuterError::InvalidOpening),
        Some(Some(text)) => Some(OuterError::EofRefused(text)),
        Some(None) => {
            let confirmed = match at.unsigned() {
                Some(confirmed) => confirmed == offset,
                None => false,
            };
            if confirmed {
                None
            } else {
                Some(OuterError::EofUnconfirmed(offset))
            }
        },
    }
}

/// Checks the answer to a declared end of input: it has to confirm the same
/// position.
pub fn check_eof_reply(line: &[u8], offset: u64) -> (r: Option<OuterError>)
    ensures
        ({
            let verdict = eof_verdict(
                json::json_lookup(line@, "/error"@),
                json::json_lookup(line@, "/stdin_eof_at"@),
                offset,
            );
            match r {
                None => verdict is None,
                Some(fault) => verdict == Some(fault@),
            }
        }),
{
    check_eof_found(json_at(line, "/error"), json_at(line, "/stdin_eof_at"), offset)
}

/// Delivered positions never go back from one handshake to the next.
pub proof fn positions_never_go_back(
    delivered: OutputOffsets,
    stdout: u64,
    stderr: u64,
    nobuffer: bool,
)
    requires
        handshake_fault(delivered, stdout, stderr, nobuffer) is None,
    ensures
        stdout >= delivered.stdout,
        stderr >= delivered.stderr,
        !nobuffer ==> stdout == delivered.stdout && stderr == delivered.stderr,
{
}

/// Once a session was reached it is never created again.
pub proof fn established_sessions_are_never_recreated(run: OuterRun, opened: bool)
    requires
        run.valid(),
    ensures
        run.disconnected(opened).valid(),
        !run.disconnected(opened).create,
        run.established || opened ==> run.disconnected(opened).established,
{
}

/// One attachment to a buffered server: where its handshake put the streams, and
/// how many bytes of each it delivered before it ended.
pub struct Delivery {
    pub stdout_at: u64,
    pub stderr_at: u64,
    pub stdout_count: nat,
    pub stderr_count: nat,
}

/// How much of each stream a client has after its attachments.
pub open spec fn delivered_after(attachments: Seq<Delivery>) -> (nat, nat) {
    if attachments.len() == 0 {
        (0, 0)
    } else {
        let last = attachments.last();
        (last.stdout_at as nat + last.stdout_count, last.stderr_at as nat + last.stderr_count)
    }
}

/// Whether every handshake was accepted, each against what had been delivered
/// before it.
pub open spec fn all_accepted(attachments: Seq<Delivery>) -> bool
    decreases attachments.len(),
{
    if attachments.len() == 0 {
        true
    } else {
        let before = attachments.drop_last();
        let last = attachments.last();
        let (stdout, stderr) = delivered_after(before);
        &&& all_accepted(before)
        &&& stdout <= u64::MAX && stderr <= u64::MAX
        &&& handshake_fault(
            OutputOffsets { stdout: stdout as u64, stderr: stderr as u64 },
            last.stdout_at,
            last.stderr_at,
            false,
        ) is None
    }
}

/// What a client has received after its attachments, where `stdout` and `stderr`
/// are all that the command ever writes.
pub open spec fn received(attachments: Seq<Delivery>, stdout: Seq<u8>, stderr: Seq<u8>) -> (
    Seq<u8>,
    Seq<u8>,
)
    decreases attachments.len(),
{
    if attachments.len() == 0 {
        (Seq::empty(), Seq::empty())
    } else {
        let (out, err) = received(attachments.drop_last(), stdout, stderr);
        let last = attachments.last();
        (
            out + stdout.subrange(last.stdout_at as int, last.stdout_at + last.stdout_count),
            err + stderr.subrange(last.stderr_at as int, last.stderr_at + last.stderr_count),
        )
    }
}

/// Whether no attachment delivered more than the command wrote.
pub open spec fn all_within(attachments: Seq<Delivery>, stdout: nat, stderr: nat) -> bool {
    forall|i: int|
        0 <= i < attachments.len() ==> (#[trigger] attachments[i]).stdout_at
            + attachments[i].stdout_count <= stdout && attachments[i].stderr_at
            + attachments[i].stderr_count <= stderr
}

/// However often the transport is lost, a client of a buffered server receives
/// of each stream exactly what the command wrote, in order: no byte is missing
/// and none comes twice.
pub proof fn output_arrives_once(attachments: Seq<Delivery>, stdout: Seq<u8>, stderr: Seq<u8>)
    requires
        all_accepted(attachments),
        all_within(attachments, stdout.len(), stderr.len()),
    ensures
        ({
            let (out, err) = delivered_after(attachments);
            received(attachments, stdout, stderr) == (
                stdout.take(out as int),
                stderr.take(err as int),
            )
        }),
    decreases attachments.len(),
{
    let (out, err) = delivered_after(attachments);
    if attachments.len() == 0 {
        assert(stdout.take(0) =~= Seq::empty());
        assert(stderr.take(0) =~= Seq::empty());
    } else {
        let before = attachments.drop_last();
        let last = attachments.last();
        assert(last == attachments[attachments.len() - 1]);
        assert forall|i: int| 0 <= i < before.len() implies (#[trigger] before[i]).stdout_at
            + before[i].stdout_count <= stdout.len() && before[i].stderr_at
            + before[i].stderr_count <= stderr.len() by {
            assert(before[i] == attachments[i]);
        }
        output_arrives_once(before, stdout, stderr);
        let (out_before, err_before) = delivered_after(before);
        assert(stdout.take(out_before as int) + stdout.subrange(
            last.stdout_at as int,
            out as int,
        ) =~= stdout.take(out as int));
        assert(stderr.take(err_before as int) + stderr.subrange(
            last.stderr_at as int,
            err as int,
        ) =~= stderr.take(err as int));
    }
}

/// An attempt ends the client exactly if the command's exit is retained, both
/// ends of output are known and each stream was delivered to its own end. The
/// status is the command's: its code, or 128 and its signal. Otherwise the
/// client reconnects.
pub proof fn exits_wait_for_both_streams(
    server: ServerHello,
    delivered: OutputOffsets,
    result: AttemptResult,
)
    requires
        call_ensures(relayed, (&server, delivered), result),
    ensures
        result is Exited <==> {
            &&& server.exit is Some
            &&& server.stdout_eof is Some && delivered.stdout >= server.stdout_eof->0
            &&& server.stderr_eof is Some && delivered.stderr >= server.stderr_eof->0
        },
        result is Exited && server.exit->0.code is Some ==> result->Exited_0
            == server.exit->0.code->0,
        result is Exited && server.exit->0.code is None && server.exit->0.signal is Some
            ==> result->Exited_0 == 128 + server.exit->0.signal->0,
        result !is Exited ==> (result matches AttemptResult::Disconnected { opened } && opened),
{
}

/// A retained exit counts only when the delivered positions have reached both
/// ends, and then it is the one that counts.
pub proof fn retained_exits_wait_for_both_streams(
    exit: Option<ExitResult>,
    stdout_eof: Option<u64>,
    stderr_eof: Option<u64>,
    delivered: OutputOffsets,
    further: OutputOffsets,
)
    requires
        further.stdout >= delivered.stdout,
        further.stderr >= delivered.stderr,
    ensures
        settled_exit(exit, stdout_eof, stderr_eof, delivered) is Some ==> {
            &&& settled_exit(exit, stdout_eof, stderr_eof, delivered) == exit
            &&& stdout_eof matches Some(end) && delivered.stdout >= end
            &&& stderr_eof matches Some(end) && delivered.stderr >= end
            &&& settled_exit(exit, stdout_eof, stderr_eof, further) == exit
        },
        exit is Some && stdout_eof == Some(delivered.stdout) && stderr_eof == Some(
            delivered.stderr,
        ) ==> settled_exit(exit, stdout_eof, stderr_eof, delivered) == exit,
{
}

/// Only a first attempt asks for a new session. Every other one asks for exactly
/// the output that is missing, and none forces its way or closes input.
pub proof fn attempts_resume_where_output_stands(
    create: bool,
    delivered: OutputOffsets,
    input: InputState,
    hello: ClientHello,
)
    requires
        call_ensures(attempt_hello, (create, delivered, input), hello),
    ensures
        create <==> hello.offsets is None,
        !create ==> hello.offsets->0.stdout == delivered.stdout && hello.offsets->0.stderr
            == delivered.stderr,
        hello.stdin_start == input.start,
        hello.stdin_eof == input.eof,
        hello.action is None,
        !hello.force,
{
}

/// A handshake is accepted exactly if no stream goes back and, with buffering,
/// none skips. Then the client stands where the handshake says; otherwise it
/// stays where it was.
pub proof fn handshakes_neither_repeat_nor_skip(
    delivered: &mut OutputOffsets,
    server: ServerHello,
    result: Result<(), OuterError>,
)
    requires
        call_ensures(accept_handshake, (delivered, &server), result),
    ensures
        result is Ok <==> {
            &&& server.offsets.stdout >= old(delivered).stdout
            &&& server.offsets.stderr >= old(delivered).stderr
            &&& server.nobuffer || server.offsets.stdout == old(delivered).stdout
                && server.offsets.stderr == old(delivered).stderr
        },
        result is Ok ==> final(delivered).stdout == server.offsets.stdout
            && final(delivered).stderr == server.offsets.stderr,
        result is Err ==> final(delivered).stdout == old(delivered).stdout
            && final(delivered).stderr == old(delivered).stderr,
{
}

/// However relaying stops, both streams are copied to their ends, unless it is
/// the stream that stopped it. A transport that did not end by itself is waited
/// for after a clean end of output and killed otherwise, never both.
pub proof fn winding_up_loses_no_output(stop: Stop, plan: WindUp)
    requires
        call_ensures(wind_up, (stop,), plan),
    ensures
        plan.await_stdout || stop is Stdout,
        plan.await_stderr || stop is Stderr,
        stop is Stdout ==> !plan.await_stdout,
        stop is Stderr ==> !plan.await_stderr,
        !(plan.finish_transport && plan.wait_child),
        stop is Child <==> !plan.finish_transport && !plan.wait_child,
        plan.wait_child <==> (stop matches Stop::Stdout { failed } && !failed) || (
        stop matches Stop::Stderr { failed } && !failed),
{
}

/// The client ends with a failure exactly if the transport could not be waited
/// for or copying a stream failed, and names one that did fail: that which
/// stopped the relaying, if it failed. Failing to send input never ends it.
pub proof fn only_local_failures_are_fatal(
    stop: Stop,
    stdout_failed: bool,
    stderr_failed: bool,
    fatal: Option<Fatal>,
)
    requires
        call_ensures(first_fatal, (stop, stdout_failed, stderr_failed), fatal),
    ensures
        ({
            let child = stop matches Stop::Child { failed } && failed;
            let stdout = if stop is Stdout {
                stop matches Stop::Stdout { failed } && failed
            } else {
                stdout_failed
            };
            let stderr = if stop is Stderr {
                stop matches Stop::Stderr { failed } && failed
            } else {
                stderr_failed
            };
            &&& fatal is Some <==> child || stdout || stderr
            &&& fatal == Some(Fatal::Child) ==> child
            &&& fatal == Some(Fatal::Stdout) ==> stdout
            &&& fatal == Some(Fatal::Stderr) ==> stderr
            &&& child ==> fatal == Some(Fatal::Child)
            &&& stop is Stdout && stdout ==> fatal == Some(Fatal::Stdout)
            &&& stop is Stderr && stderr ==> fatal == Some(Fatal::Stderr)
            &&& stop is Sender && stdout ==> fatal == Some(Fatal::Stdout)
        }),
{
}

/// The client ends with the status of an exit and never otherwise with success.
/// A lost transport is always run again after a pause, which begins at the
/// shortest once a session was reached, doubles and stays within its bounds; and
/// the session is then looked for, not created.
pub proof fn lost_transports_are_run_again(
    run: &mut OuterRun,
    result: AttemptResult,
    step: OuterStep,
)
    requires
        old(run).valid(),
        call_ensures(OuterRun::after, (run, result), step),
    ensures
        step is Exit <==> result is Exited,
        result matches AttemptResult::Exited(code) ==> step->Exit_0 == code,
        result matches AttemptResult::Disconnected { opened } ==> {
            &&& step is Pause
            &&& 100 <= step->Pause_0 <= 5000
            &&& opened ==> step->Pause_0 == 100
            &&& !opened ==> step->Pause_0 == old(run).backoff
            &&& final(run).backoff == if 2 * step->Pause_0 < 5000 {
                2 * step->Pause_0
            } else {
                5000
            }
            &&& !final(run).create
            &&& final(run).established <==> old(run).established || opened
        },
        step is Fail ==> result is ServerError && *final(run) == *old(run),
        step is Again ==> result is ServerError && final(run).create && !old(run).established,
{
}

/// A session that another client holds is waited for, and one that is missing is
/// created only if none was ever reached; any other refusal ends the client.
pub proof fn refusals_are_told_apart(run: &mut OuterRun, error: String, step: OuterStep)
    requires
        old(run).valid(),
        call_ensures(OuterRun::after, (run, AttemptResult::ServerError(error)), step),
    ensures
        ({
            let attached = text::occurs(error@, "session already has an attached client"@);
            let missing = text::occurs(error@, "session does not exist"@);
            &&& step is Pause <==> attached
            &&& step is Pause ==> step->Pause_0 == 100 && *final(run) == *old(run)
            &&& step is Again <==> !attached && missing && !old(run).create && !old(
                run,
            ).established
            &&& step is Again ==> final(run).create
            &&& !(step is Pause) && !(step is Again) ==> step is Fail
        }),
{
}

/// The client begins by creating its session.
pub proof fn clients_begin_by_creating(run: OuterRun)
    requires
        call_ensures(OuterRun::new, (), run),
    ensures
        run.create,
        !run.established,
        run.backoff == 100,
{
}

/// Raw input is sent without a gap and without a repetition: only bytes that
/// stand exactly at the position are written, whole, and the position moves past
/// them. Other bytes call for a new attachment.
pub proof fn raw_input_is_contiguous(
    sender: &mut RawStdinSender,
    offset: u64,
    data: &[u8],
    step: RawStdinStep,
)
    requires
        offset + data@.len() <= u64::MAX,
        call_ensures(RawStdinSender::data, (sender, offset, data), step),
    ensures
        step is Write <==> offset == old(sender).position,
        step is Write ==> step->Write_0@ == data@ && final(sender).position == old(sender).position
            + data@.len(),
        step !is Write ==> step is Reattach && final(sender).position == old(sender).position,
        final(sender).declared_eof == old(sender).declared_eof,
{
}

/// The end of input is declared exactly once, at the position that was reached;
/// a declared end never moves.
pub proof fn raw_input_ends_where_it_was_declared(
    sender: RawStdinSender,
    offset: u64,
    step: RawStdinStep,
)
    requires
        call_ensures(RawStdinSender::eof, (&sender, offset), step),
    ensures
        step is DeclareEof <==> offset == sender.position && sender.declared_eof is None,
        step is DeclareEof ==> step->DeclareEof_0 == sender.position,
        step is Rest <==> offset == sender.position && sender.declared_eof == Some(offset),
        step !is DeclareEof && step !is Rest ==> step is Fail,
{
}

/// Sending begins where the server stands, unless its input has ended.
pub proof fn raw_input_begins_where_the_server_stands(
    position: u64,
    declared_eof: Option<u64>,
    server_eof: bool,
    begun: Option<RawStdinSender>,
)
    requires
        call_ensures(RawStdinSender::begin, (position, declared_eof, server_eof), begun),
    ensures
        begun is None <==> server_eof,
        begun matches Some(sender) ==> sender.position == position && sender.declared_eof
            == declared_eof,
{
}

/// The end of input is declared as a control that names exactly that end, and
/// counts as declared only if the answer has no error and confirms it.
pub proof fn declared_ends_are_confirmed(
    offset: u64,
    hello: ClientHello,
    error: JsonAt,
    at: JsonAt,
    fault: Option<OuterError>,
)
    requires
        call_ensures(eof_hello, (offset,), hello),
        call_ensures(check_eof_found, (error, at, offset), fault),
    ensures
        hello.action == Some(ClientAction::StdinEof),
        hello.stdin_eof == Some(offset),
        !hello.force,
        fault is None <==> {
            &&& !(error is Invalid)
            &&& !(error is Text)
            &&& at matches JsonAt::Number { unsigned, .. } && unsigned == Some(offset)
        },
        error matches JsonAt::Text(text) ==> fault is Some && fault->0@
            == OuterErrorView::EofRefused(text@),
{
}

/// A transport's first line is an error exactly if it tells one, and no opening
/// at all if it is not JSON.
pub proof fn openings_tell_their_error(found: JsonAt, result: Result<Option<String>, OuterError>)
    requires
        call_ensures(opening_error_of, (found,), result),
    ensures
        result is Err <==> found is Invalid,
        found matches JsonAt::Text(text) ==> (result matches Ok(Some(error)) && error@ == text@),
        !(found is Invalid) && !(found is Text) ==> result matches Ok(None),
{
}

/// The answers of a transport are read at their members: an error at `error`, and
/// the confirmed end of input at `stdin_eof_at`.
pub proof fn answers_are_read_at_their_members(
    line: &[u8],
    offset: u64,
    opening: Result<Option<String>, OuterError>,
    eof: Option<OuterError>,
)
    requires
        call_ensures(opening_error, (line,), opening),
        call_ensures(check_eof_reply, (line, offset), eof),
    ensures
        ({
            let error = json::json_lookup(line@, "/error"@);
            let at = json::json_lookup(line@, "/stdin_eof_at"@);
            &&& opening is Err <==> error is Invalid
            &&& error matches JsonView::Text(text) ==> (opening matches Ok(Some(told)) && told@
                == text)
            &&& !(error is Invalid) && !(error is Text) ==> (opening matches Ok(None))
            &&& eof is None <==> !(error is Invalid) && !(error is Text) && (
            at matches JsonView::Number { unsigned, .. } && unsigned == Some(offset))
        }),
{
}

/// A failed attempt says why, in the words of the remote side where it gave some.
pub proof fn failed_attempts_say_why(error: OuterError, r: String)
    requires
        call_ensures(OuterError::message, (&error,), r),
    ensures
        error is InvalidOpening ==> r@ == "transport returned an invalid opening JSON message"@,
        error is InvalidHandshake ==> r@ == "transport returned an invalid pipekeep handshake"@,
        error is MovedBackwards ==> r@ == "server moved an output position backwards"@,
        error is PositionsLost ==> r@
            == "buffered server cannot provide the requested output positions"@,
        error is BeyondLocalEof ==> r@ == "server stdin position is beyond local EOF"@,
        error is EofChanged ==> r@ == "declared stdin EOF changed during attachment"@,
        error matches OuterError::Remote(told) ==> r@ == "remote pipekeep: "@ + told@,
        error matches OuterError::EofRefused(told) ==> r@ == "remote stdin EOF: "@ + told@,
        error matches OuterError::EofUnconfirmed(offset) ==> r@
            == "remote stdin EOF response did not confirm byte "@ + text::decimal(offset as nat),
{
}

/// A refusal that is no reason to wait or to create the session ends the client with
/// the words of the remote side, and leaves it as it was.
pub proof fn other_refusals_end_the_client(run: &mut OuterRun, error: String, step: OuterStep)
    requires
        old(run).valid(),
        call_ensures(OuterRun::after, (run, AttemptResult::ServerError(error)), step),
    ensures
        step matches OuterStep::Fail(fault) ==> (fault matches OuterError::Remote(told) && told@
            == error@) && *final(run) == *old(run),
        old(run).create || old(run).established ==> !(step is Again),
        step is Again ==> final(run).create && !old(run).create && !old(run).established
            && final(run).backoff == old(run).backoff && !final(run).established,
        step is Pause ==> *final(run) == *old(run),
        !(step is Exit),
{
}

/// A first line that is no JSON is an invalid opening, wherever it is looked at.
pub proof fn unreadable_openings_are_invalid(
    line: &[u8],
    found: JsonAt,
    r: Result<Option<String>, OuterError>,
    s: Result<Option<String>, OuterError>,
)
    requires
        call_ensures(opening_error, (line,), r),
        call_ensures(opening_error_of, (found,), s),
    ensures
        r matches Err(error) ==> error is InvalidOpening,
        s matches Err(error) ==> error is InvalidOpening,
        found is Invalid <==> s is Err,
{
}

/// An end of input that is not where it was declared, or not where input stands,
/// says which of the two it is.
pub proof fn misplaced_ends_say_why(sender: RawStdinSender, offset: u64, step: RawStdinStep)
    requires
        call_ensures(RawStdinSender::eof, (&sender, offset), step),
    ensures
        step matches RawStdinStep::Fail(error) ==> {
            &&& offset != sender.position <==> error is BeyondLocalEof
            &&& offset == sender.position <==> error is EofChanged
        },
        step !is Write && step !is Reattach,
{
}

/// An exit ends the client with the command's own status and changes nothing.
pub proof fn exits_end_the_client(run: &mut OuterRun, code: i32, step: OuterStep)
    requires
        old(run).valid(),
        call_ensures(OuterRun::after, (run, AttemptResult::Exited(code)), step),
    ensures
        step is Exit,
        step->Exit_0 == code,
        *final(run) == *old(run),
{
}

} // verus!
