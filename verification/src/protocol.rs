//! The attachment protocol: opening messages and typed frames.
use vstd::prelude::*;

use crate::json;
use crate::json::number_object_text;
use crate::output::OutputFact;
use crate::text;
use crate::text::{bytes_copy, bytes_equal, bytes_range, decimal_text, join, signed_decimal_text};
use crate::wire;
use crate::wire::{be_number, u32_bytes, u64_bytes};

verus! {

/// Version of the public attachment handshake and its sticky-state semantics.
/// Compatible additions keep this number; an incompatible change bumps it.
pub const ATTACHMENT_PROTOCOL_VERSION: u32 = 1;

/// Advertised by a session that verified its group pidfd.
pub const GROUP_PIDFD_CAPABILITY: &'static str = "group-pidfd-cancel-v1";

/// Names the framed attachment form.
pub const FRAMED_ATTACHMENT_V1: &'static str = "framed-v1";

/// Longest accepted opening message, without its newline.
pub const MAX_JSON_LINE: usize = 65_536;

/// Longest accepted frame payload.
pub const MAX_FRAME: usize = 16_777_216;

/// Longest accepted exit payload.
pub const MAX_EXIT_PAYLOAD: usize = 256;

/// Longest accepted output fact payload.
pub const MAX_FACT_PAYLOAD: usize = 4096;

/// What is wrong with a message.
#[derive(Clone, Copy, Debug, PartialEq, Eq, Structural)]
pub enum ProtocolError {
    OpeningEnded,
    OpeningTooLarge,
    FrameTooLarge,
    PositionOverflow,
    DirectionOrType,
    PayloadLength,
    Truncated,
    ExitPayload,
    ExitShape,
    FactPayload,
    FactAccounting,
    FactRange,
    FactCompleteness,
    FactUnsettled,
    OffsetLength,
    DataLength,
    UnknownType(u8),
}

impl ProtocolError {
    /// The diagnostic for the error.
    pub open spec fn text(self) -> Seq<char> {
        match self {
            ProtocolError::OpeningEnded => "connection ended in the opening JSON message"@,
            ProtocolError::OpeningTooLarge => "opening JSON message is too large"@,
            ProtocolError::FrameTooLarge => "frame is too large"@,
            ProtocolError::PositionOverflow => "frame position overflowed"@,
            ProtocolError::DirectionOrType => "frame has invalid direction or type"@,
            ProtocolError::PayloadLength => "frame has invalid length or exceeds the size limit"@,
            ProtocolError::Truncated => "early eof"@,
            ProtocolError::ExitPayload => "invalid exit frame payload"@,
            ProtocolError::ExitShape => "exit frame must contain one actual code or signal"@,
            ProtocolError::FactPayload => "invalid output frame payload"@,
            ProtocolError::FactAccounting => "invalid bounded accounting"@,
            ProtocolError::FactRange => "invalid finite output fact"@,
            ProtocolError::FactCompleteness => "invalid output completeness fact"@,
            ProtocolError::FactUnsettled => {
                "unconfirmed storage or collection cannot be a replay end"@
            },
            ProtocolError::OffsetLength => "offset frame has an invalid length"@,
            ProtocolError::DataLength => "data frame has an invalid length"@,
            ProtocolError::UnknownType(kind) => "unknown frame type "@ + text::decimal(kind as nat),
        }
    }

    pub fn message(&self) -> (r: String)
        ensures
            r@ == self.text(),
    {
        match self {
            ProtocolError::OpeningEnded => "connection ended in the opening JSON message".to_owned(),
            ProtocolError::OpeningTooLarge => "opening JSON message is too large".to_owned(),
            ProtocolError::FrameTooLarge => "frame is too large".to_owned(),
            ProtocolError::PositionOverflow => "frame position overflowed".to_owned(),
            ProtocolError::DirectionOrType => "frame has invalid direction or type".to_owned(),
            ProtocolError::PayloadLength => {
                "frame has invalid length or exceeds the size limit".to_owned()
            },
            ProtocolError::Truncated => "early eof".to_owned(),
            ProtocolError::ExitPayload => "invalid exit frame payload".to_owned(),
            ProtocolError::ExitShape => {
                "exit frame must contain one actual code or signal".to_owned()
            },
            ProtocolError::FactPayload => "invalid output frame payload".to_owned(),
            ProtocolError::FactAccounting => "invalid bounded accounting".to_owned(),
            ProtocolError::FactRange => "invalid finite output fact".to_owned(),
            ProtocolError::FactCompleteness => "invalid output completeness fact".to_owned(),
            ProtocolError::FactUnsettled => {
                "unconfirmed storage or collection cannot be a replay end".to_owned()
            },
            ProtocolError::OffsetLength => "offset frame has an invalid length".to_owned(),
            ProtocolError::DataLength => "data frame has an invalid length".to_owned(),
            ProtocolError::UnknownType(kind) => {
                join("unknown frame type ", decimal_text(*kind as u64).as_str())
            },
        }
    }
}

/// What a session says about its cancellation control.
#[derive(Clone, Debug)]
pub struct SessionFact {
    pub capabilities: Vec<String>,
    pub workload_started: bool,
    pub cancel_state: String,
    pub cancel_error: Option<String>,
}

/// Next wanted byte of each output stream.
#[derive(Clone, Copy, Debug, PartialEq, Eq, Structural)]
pub struct OutputOffsets {
    pub stdout: u64,
    pub stderr: u64,
}

impl Default for OutputOffsets {
    fn default() -> (r: Self)
        ensures
            r == (OutputOffsets { stdout: 0, stderr: 0 }),
    {
        OutputOffsets { stdout: 0, stderr: 0 }
    }
}

/// Next byte of each stream.
#[derive(Clone, Copy, Debug, PartialEq, Eq, Structural)]
pub struct AllOffsets {
    pub stdin: u64,
    pub stdout: u64,
    pub stderr: u64,
}

impl Default for AllOffsets {
    fn default() -> (r: Self)
        ensures
            r == (AllOffsets { stdin: 0, stdout: 0, stderr: 0 }),
    {
        AllOffsets { stdin: 0, stdout: 0, stderr: 0 }
    }
}

/// A control action in an opening message.
#[derive(Clone, Copy, Debug, PartialEq, Eq, Structural)]
pub enum ClientAction {
    StdinEof,
}

/// The client's opening message.
#[derive(Clone, Copy, Debug, PartialEq, Eq, Structural)]
pub struct ClientHello {
    pub action: Option<ClientAction>,
    pub offsets: Option<OutputOffsets>,
    pub stdin_start: u64,
    pub stdin_eof: Option<u64>,
    pub force: bool,
}

impl Default for ClientHello {
    fn default() -> (r: Self)
        ensures
            r == (ClientHello {
                action: None,
                offsets: None,
                stdin_start: 0,
                stdin_eof: None,
                force: false,
            }),
    {
        ClientHello { action: None, offsets: None, stdin_start: 0, stdin_eof: None, force: false }
    }
}

/// A request to the session broker. Each form of attachment or cancellation is
/// a distinct action, so that a broker that does not know it refuses it before
/// it takes any effect.
#[derive(Clone, Copy, Debug, PartialEq, Eq, Structural)]
pub enum BrokerRequest {
    Attach { offsets: OutputOffsets, stdin_start: u64, stdin_eof: Option<u64>, force: bool },
    AttachFramedV1 { offsets: OutputOffsets, stdin_start: u64, stdin_eof: Option<u64>, force: bool },
    AttachOutputV1 { offsets: OutputOffsets, stdin_start: u64, stdin_eof: Option<u64>, force: bool },
    StdinEof { offset: u64 },
    Pid,
    Cancel,
    CancelGroupPidfd,
    CancelOutputV1,
    Session,
}

/// The broker's opening message.
#[derive(Clone, Debug)]
pub struct ServerHello {
    pub attachment: Option<String>,
    pub stdin_eof_at: Option<u64>,
    pub session: Option<SessionFact>,
    pub offsets: AllOffsets,
    pub nobuffer: bool,
    pub stdin_eof: bool,
    pub stdout_eof: Option<u64>,
    pub stderr_eof: Option<u64>,
    pub exit: Option<ExitResult>,
    pub output: Option<OutputFact>,
}

/// How a command ended: by an exit code or by a signal.
#[derive(Clone, Copy, Debug, PartialEq, Eq, Structural)]
pub struct ExitResult {
    pub code: Option<i32>,
    pub signal: Option<i32>,
}

/// `CancelWon` means at least one TERM or KILL syscall succeeded. This counts
/// zombie-only groups and proves neither a live recipient nor historical
/// request attribution. A later settled call returns `AlreadyExited`. The
/// actual retained command exit is never relabeled by this verdict.
#[derive(Clone, Copy, Debug, PartialEq, Eq, Structural)]
pub enum CancelOutcome {
    AlreadyExited,
    CancelWon,
}

impl ExitResult {
    /// Whether the result names exactly one possible code or signal.
    pub open spec fn is_actual(self) -> bool {
        match (self.code, self.signal) {
            (Some(code), None) => 0 <= code <= 255,
            (None, Some(signal)) => 1 <= signal <= 127,
            _ => false,
        }
    }

    /// Whether the shell-style status fits in 32 bits.
    pub open spec fn has_status(self) -> bool {
        self.code is None && self.signal is Some ==> self.signal->0 <= i32::MAX - 128
    }

    /// The shell-style status: the code, or 128 and the signal.
    pub open spec fn status(self) -> int {
        match self.code {
            Some(code) => code as int,
            None => match self.signal {
                Some(signal) => 128 + signal,
                None => 129,
            },
        }
    }

    pub fn validate(&self) -> (r: Result<(), ProtocolError>)
        ensures
            r is Ok <==> self.is_actual(),
            r is Err ==> r == Err::<(), ProtocolError>(ProtocolError::ExitShape),
    {
        match (self.code, self.signal) {
            (Some(code), None) => {
                if 0 <= code && code <= 255 {
                    Ok(())
                } else {
                    Err(ProtocolError::ExitShape)
                }
            },
            (None, Some(signal)) => {
                if 1 <= signal && signal <= 127 {
                    Ok(())
                } else {
                    Err(ProtocolError::ExitShape)
                }
            },
            _ => Err(ProtocolError::ExitShape),
        }
    }

    pub fn process_code(&self) -> (r: i32)
        requires
            self.has_status(),
        ensures
            r == self.status(),
    {
        match self.code {
            Some(code) => code,
            None => match self.signal {
                Some(signal) => 128 + signal,
                None => 129,
            },
        }
    }
}

/// The JSON text of an exit result.
pub open spec fn exit_text(result: ExitResult) -> Seq<char> {
    match (result.code, result.signal) {
        (None, None) => "{}"@,
        (Some(code), None) => json::number_object("code"@, code as int),
        (None, Some(signal)) => json::number_object("signal"@, signal as int),
        (Some(code), Some(signal)) => "{\"code\":"@ + text::signed_decimal(code as int)
            + ",\"signal\":"@ + text::signed_decimal(signal as int) + "}"@,
    }
}

/// The payload that carries an exit result.
pub open spec fn exit_payload(result: ExitResult) -> Seq<u8> {
    vstd::utf8::encode_utf8(exit_text(result))
}

/// Writes an exit result as JSON.
pub fn exit_json(result: &ExitResult) -> (r: Vec<u8>)
    ensures
        r@ == exit_payload(*result),
{
    let written: String = match (result.code, result.signal) {
        (None, None) => "{}".to_owned(),
        (Some(code), None) => number_object_text("code", code as i64),
        (None, Some(signal)) => number_object_text("signal", signal as i64),
        (Some(code), Some(signal)) => {
            let mut r = join("{\"code\":", signed_decimal_text(code as i64).as_str());
            r.append(",\"signal\":");
            r.append(signed_decimal_text(signal as i64).as_str());
            r.append("}");
            r
        },
    };
    bytes_copy(written.as_str().as_bytes())
}

/// The characters that bytes stand for, one for each.
pub open spec fn plain_text(bytes: Seq<u8>) -> Seq<char> {
    Seq::new(bytes.len(), |i: int| bytes[i] as char)
}

/// Whether a payload is a possible exit as it is written.
pub open spec fn is_written_exit(payload: Seq<u8>) -> bool {
    exists|result: ExitResult| result.is_actual() && #[trigger] exit_payload(result) == payload
}

/// The exit result in a payload. One that is written as this library writes it
/// is known by its bytes. JSON can be written in other forms; `found` is what a
/// reader of JSON finds there.
pub open spec fn exit_in(payload: Seq<u8>, found: Option<ExitResult>) -> Option<ExitResult> {
    if is_written_exit(payload) {
        Some(
            choose|result: ExitResult|
                result.is_actual() && #[trigger] exit_payload(result) == payload,
        )
    } else {
        found
    }
}

/// How the text of a possible exit is made up: where its number begins, the
/// number, and the letter that tells a code from a signal.
proof fn exit_text_parts(result: ExitResult)
    requires
        result.is_actual(),
    ensures
        ({
            let written = exit_text(result);
            let payload = exit_payload(result);
            let (from, value) = match result.code {
                Some(code) => (8int, code as nat),
                None => (10int, result.signal->0 as nat),
            };
            &&& written.len() == from + text::decimal(value).len() + 1
            &&& 1 <= text::decimal(value).len() <= 3
            &&& written.subrange(from, written.len() - 1) == text::decimal(value)
            &&& written[2] == (if result.code is Some {
                'c'
            } else {
                's'
            })
            &&& payload.len() == written.len()
            &&& plain_text(payload) == written
        }),
{
    let (member, from, value) = match result.code {
        Some(code) => ("code"@, 8int, code as nat),
        None => ("signal"@, 10int, result.signal->0 as nat),
    };
    reveal_strlit("code");
    reveal_strlit("signal");
    reveal_strlit("{\"");
    reveal_strlit("\":");
    reveal_strlit("}");
    reveal_with_fuel(text::decimal, 3);
    text::decimal_round_trip(value);
    let written = exit_text(result);
    let payload = exit_payload(result);
    assert(written == json::number_object(member, value as int));
    assert(written.subrange(from, written.len() - 1) =~= text::decimal(value));
    assert forall|i: int| 0 <= i < written.len() implies '\0' <= #[trigger] written[i]
        && written[i] <= '\u{7f}' by {
        if from <= i < written.len() - 1 {
            assert(text::is_digit(text::decimal(value)[i - from]));
        }
    }
    assert(vstd::utf8::is_ascii_chars(written));
    vstd::utf8::is_ascii_chars_encode_utf8(written);
    assert forall|i: int| 0 <= i < written.len() implies plain_text(payload)[i] == #[trigger]
        written[i] by {
        assert(payload[i] == written[i] as u8);
    }
    assert(plain_text(payload) =~= written);
}

/// Two possible exits are never written alike.
pub proof fn written_exits_differ(one: ExitResult, other: ExitResult)
    requires
        one.is_actual(),
        other.is_actual(),
        exit_payload(one) == exit_payload(other),
    ensures
        one == other,
{
    exit_text_parts(one);
    exit_text_parts(other);
    text::decimal_round_trip(
        match one.code {
            Some(code) => code as nat,
            None => one.signal->0 as nat,
        },
    );
    text::decimal_round_trip(
        match other.code {
            Some(code) => code as nat,
            None => other.signal->0 as nat,
        },
    );
}

/// The number of up to three digits before the last byte, if there is one.
fn number_before_last(bytes: &[u8], from: usize) -> (r: Option<i32>)
    ensures
        from < bytes@.len() ==> ({
            let digits = plain_text(bytes@.subrange(from as int, bytes@.len() - 1));
            text::is_number(digits) && digits.len() <= 3 ==> r is Some && r->0 == text::number(
                digits,
            )
        }),
{
    if bytes.len() <= from || bytes.len() - 1 - from > 3 {
        return None;
    }
    let end: usize = bytes.len() - 1;
    let ghost digits = plain_text(bytes@.subrange(from as int, end as int));
    let mut value: i32 = 0;
    let mut at: usize = from;
    assert(digits.take(0).len() == 0);
    while at < end
        invariant
            from <= at <= end,
            end == bytes@.len() - 1,
            end - from <= 3,
            digits == plain_text(bytes@.subrange(from as int, end as int)),
            value == text::number(digits.take(at - from)),
            at == from ==> value == 0,
            at == from + 1 ==> 0 <= value < 10,
            at == from + 2 ==> 0 <= value < 100,
            at == from + 3 ==> 0 <= value < 1000,
        decreases end - at,
    {
        let byte: u8 = bytes[at];
        assert(digits[at - from] == byte as char);
        if byte < 48 || byte > 57 {
            assert(!text::is_digit(digits[at - from]));
            return None;
        }
        proof {
            let longer = digits.take(at - from + 1);
            assert(longer.drop_last() =~= digits.take(at - from));
            assert(longer.last() == byte as char);
        }
        value = value * 10 + (byte - 48) as i32;
        at += 1;
    }
    assert(digits.take(end - from) =~= digits);
    Some(value)
}

/// Recognises a possible exit as it is written.
pub fn written_exit(payload: &[u8]) -> (r: Option<ExitResult>)
    ensures
        match r {
            Some(result) => result.is_actual() && exit_payload(result) == payload@,
            None => !is_written_exit(payload@),
        },
{
    let code = ExitResult { code: number_before_last(payload, 8), signal: None };
    let signal = ExitResult { code: None, signal: number_before_last(payload, 10) };
    proof {
        assert forall|result: ExitResult|
            result.is_actual() && #[trigger] exit_payload(result) == payload@ implies result == code
            || result == signal by {
            exit_text_parts(result);
            let (from, value) = match result.code {
                Some(code) => (8int, code as nat),
                None => (10int, result.signal->0 as nat),
            };
            text::decimal_round_trip(value);
            assert(plain_text(payload@.subrange(from, payload@.len() - 1)) =~= text::decimal(
                value,
            ));
        }
    }
    if code.validate().is_ok() && bytes_equal(exit_json(&code).as_slice(), payload) {
        return Some(code);
    }
    if signal.validate().is_ok() && bytes_equal(exit_json(&signal).as_slice(), payload) {
        return Some(signal);
    }
    None
}

/// A typed message between an attachment's two ends.
#[derive(Clone, Debug)]
pub enum Frame {
    StdinData { offset: u64, data: Vec<u8> },
    StdinEof { offset: u64 },
    StdoutData { offset: u64, data: Vec<u8> },
    StderrData { offset: u64, data: Vec<u8> },
    StdinPosition { offset: u64 },
    Exit(ExitResult),
    OutputState(OutputFact),
    OutputEnd(OutputFact),
}

/// What a frame says.
pub enum FrameView {
    StdinData { offset: u64, data: Seq<u8> },
    StdinEof { offset: u64 },
    StdoutData { offset: u64, data: Seq<u8> },
    StderrData { offset: u64, data: Seq<u8> },
    StdinPosition { offset: u64 },
    Exit(ExitResult),
    OutputState(OutputFact),
    OutputEnd(OutputFact),
}

impl View for Frame {
    type V = FrameView;

    open spec fn view(&self) -> FrameView {
        match *self {
            Frame::StdinData { offset, data } => FrameView::StdinData { offset, data: data@ },
            Frame::StdinEof { offset } => FrameView::StdinEof { offset },
            Frame::StdoutData { offset, data } => FrameView::StdoutData { offset, data: data@ },
            Frame::StderrData { offset, data } => FrameView::StderrData { offset, data: data@ },
            Frame::StdinPosition { offset } => FrameView::StdinPosition { offset },
            Frame::Exit(result) => FrameView::Exit(result),
            Frame::OutputState(fact) => FrameView::OutputState(fact),
            Frame::OutputEnd(fact) => FrameView::OutputEnd(fact),
        }
    }
}

impl FrameView {
    /// The type byte.
    pub open spec fn kind(self) -> u8 {
        match self {
            FrameView::StdinData { .. } => 1,
            FrameView::StdinEof { .. } => 2,
            FrameView::StdoutData { .. } => 3,
            FrameView::StderrData { .. } => 4,
            FrameView::StdinPosition { .. } => 5,
            FrameView::Exit(_) => 6,
            FrameView::OutputState(_) => 7,
            FrameView::OutputEnd(_) => 8,
        }
    }

    /// The payload, where `json` is the JSON text of an output fact.
    pub open spec fn payload(self, json: Seq<u8>) -> Seq<u8> {
        match self {
            FrameView::StdinData { offset, data } => wire::be_bytes(offset as nat, 8) + data,
            FrameView::StdinEof { offset } => wire::be_bytes(offset as nat, 8),
            FrameView::StdoutData { offset, data } => wire::be_bytes(offset as nat, 8) + data,
            FrameView::StderrData { offset, data } => wire::be_bytes(offset as nat, 8) + data,
            FrameView::StdinPosition { offset } => wire::be_bytes(offset as nat, 8),
            FrameView::Exit(result) => exit_payload(result),
            _ => json,
        }
    }

    /// Why the frame cannot be written, if it cannot.
    pub open spec fn refusal(self, json: Seq<u8>) -> Option<ProtocolError> {
        match self {
            FrameView::StdinData { offset, data }
            | FrameView::StdoutData { offset, data }
            | FrameView::StderrData { offset, data } => payload_refusal(offset, data.len()),
            FrameView::StdinEof { .. } | FrameView::StdinPosition { .. } => None,
            _ => if self.payload(json).len() > MAX_FRAME {
                Some(ProtocolError::FrameTooLarge)
            } else {
                None
            },
        }
    }
}

/// Why `length` bytes at `offset` cannot be framed, if they cannot.
pub open spec fn payload_refusal(offset: u64, length: nat) -> Option<ProtocolError> {
    if length > MAX_FRAME - 8 {
        Some(ProtocolError::FrameTooLarge)
    } else if offset + length > u64::MAX {
        Some(ProtocolError::PositionOverflow)
    } else {
        None
    }
}

/// The bytes of a frame: its type, the length of its payload, its payload.
pub open spec fn framed(kind: u8, payload: Seq<u8>) -> Seq<u8> {
    seq![kind] + wire::be_bytes(payload.len(), 4) + payload
}

/// Which frames a stream carries.
#[derive(Clone, Copy, Debug, PartialEq, Eq, Structural)]
pub enum Direction {
    /// From the client to the broker.
    Input,
    /// From the broker to a raw or framed attachment.
    Output,
    /// From the broker to an attachment that receives output facts.
    BoundedOutput,
}

/// Whether a frame of type `kind` may travel in `direction`.
pub open spec fn kind_allowed(kind: u8, direction: Direction) -> bool {
    match direction {
        Direction::Input => kind == 1 || kind == 2,
        Direction::Output => 3 <= kind <= 6,
        Direction::BoundedOutput => 3 <= kind <= 5 || kind == 7 || kind == 8,
    }
}

/// Whether a payload of `length` bytes is possible for a frame of type `kind`.
pub open spec fn length_allowed(kind: u8, length: nat) -> bool {
    if kind == 1 || kind == 3 || kind == 4 {
        8 <= length <= MAX_FRAME
    } else if kind == 2 || kind == 5 {
        length == 8
    } else if kind == 6 {
        1 <= length <= MAX_EXIT_PAYLOAD
    } else if kind == 7 || kind == 8 {
        1 <= length <= MAX_FACT_PAYLOAD
    } else {
        false
    }
}

/// Why a header is refused, if it is.
pub open spec fn header_refusal(kind: u8, length: nat, direction: Direction) -> Option<
    ProtocolError,
> {
    if !kind_allowed(kind, direction) {
        Some(ProtocolError::DirectionOrType)
    } else if !length_allowed(kind, length) {
        Some(ProtocolError::PayloadLength)
    } else {
        None
    }
}

/// The absolute position after `length` bytes at `offset`.
pub fn checked_end(offset: u64, length: usize) -> (r: Result<u64, ProtocolError>)
    ensures
        match r {
            Ok(end) => end == offset + length,
            Err(error) => error == ProtocolError::PositionOverflow && offset + length > u64::MAX,
        },
{
    match offset.checked_add(length as u64) {
        Some(end) => Ok(end),
        None => Err(ProtocolError::PositionOverflow),
    }
}

/// Checks a frame header before anything of its payload is read.
pub fn validate_header(kind: u8, length: usize, direction: Direction) -> (r: Result<
    (),
    ProtocolError,
>)
    ensures
        match r {
            Ok(()) => header_refusal(kind, length as nat, direction) is None,
            Err(error) => header_refusal(kind, length as nat, direction) == Some(error),
        },
{
    let allowed = match direction {
        Direction::Input => kind == 1 || kind == 2,
        Direction::Output => 3 <= kind && kind <= 6,
        Direction::BoundedOutput => (3 <= kind && kind <= 5) || kind == 7 || kind == 8,
    };
    if !allowed {
        return Err(ProtocolError::DirectionOrType);
    }
    let valid = match kind {
        1 | 3 | 4 => 8 <= length && length <= MAX_FRAME,
        2 | 5 => length == 8,
        6 => 1 <= length && length <= MAX_EXIT_PAYLOAD,
        7 | 8 => 1 <= length && length <= MAX_FACT_PAYLOAD,
        _ => false,
    };
    if !valid {
        return Err(ProtocolError::PayloadLength);
    }
    Ok(())
}

/// The payload of a data frame: its offset, then its bytes.
pub fn offset_payload(offset: u64, data: &[u8]) -> (r: Result<Vec<u8>, ProtocolError>)
    ensures
        match r {
            Ok(payload) => payload_refusal(offset, data@.len()) is None && payload@ == wire::be_bytes(
                offset as nat,
                8,
            ) + data@,
            Err(error) => payload_refusal(offset, data@.len()) == Some(error),
        },
{
    if data.len() > MAX_FRAME - 8 {
        return Err(ProtocolError::FrameTooLarge);
    }
    if let Err(error) = checked_end(offset, data.len()) {
        return Err(error);
    }
    let mut payload = u64_bytes(offset);
    payload.extend_from_slice(data);
    assert(payload@ =~= wire::be_bytes(offset as nat, 8) + data@);
    Ok(payload)
}

/// The offset that is the whole of a payload.
pub fn only_offset(payload: &[u8]) -> (r: Result<u64, ProtocolError>)
    ensures
        match r {
            Ok(offset) => payload@.len() == 8 && offset == wire::be_value(payload@),
            Err(error) => payload@.len() != 8 && error == ProtocolError::OffsetLength,
        },
{
    if payload.len() != 8 {
        return Err(ProtocolError::OffsetLength);
    }
    Ok(be_number(payload))
}

/// The offset and the bytes of a data payload.
pub fn split_offset(payload: &[u8]) -> (r: Result<(u64, Vec<u8>), ProtocolError>)
    ensures
        match r {
            Ok((offset, data)) => {
                &&& payload@.len() >= 8
                &&& offset == wire::be_value(payload@.take(8))
                &&& data@ == payload@.skip(8)
                &&& offset + data@.len() <= u64::MAX
            },
            Err(error) => {
                ||| payload@.len() < 8 && error == ProtocolError::DataLength
                ||| payload@.len() >= 8 && wire::be_value(payload@.take(8)) + (payload@.len() - 8)
                    > u64::MAX && error == ProtocolError::PositionOverflow
            },
        },
{
    if payload.len() < 8 {
        return Err(ProtocolError::DataLength);
    }
    let head = vstd::slice::slice_subrange(payload, 0, 8);
    assert(head@ =~= payload@.take(8));
    let offset: u64 = be_number(head);
    if let Err(error) = checked_end(offset, payload.len() - 8) {
        return Err(error);
    }
    let data = bytes_range(payload, 8, payload.len());
    assert(data@ =~= payload@.skip(8));
    Ok((offset, data))
}

/// What a reader of JSON found in a payload.
#[derive(Clone, Copy, Debug, PartialEq, Eq, Structural)]
pub enum JsonPayload {
    /// Nothing that a frame can hold.
    Unusable,
    /// An exit result.
    Exit(ExitResult),
    /// An output fact.
    Fact(OutputFact),
}

impl JsonPayload {
    pub open spec fn exit(self) -> Option<ExitResult> {
        match self {
            JsonPayload::Exit(result) => Some(result),
            _ => None,
        }
    }
}

/// A frame whose header was accepted, with its payload still uninterpreted.
#[derive(Clone, Debug)]
pub struct RawFrame {
    pub kind: u8,
    pub payload: Vec<u8>,
}

/// What a stretch of input starts with.
pub enum FrameAt {
    /// Nothing: the stream is at its end.
    End,
    /// Something that is no frame.
    Bad(ProtocolError),
    /// A frame.
    Raw { kind: u8, payload: Seq<u8> },
}

/// What `input` starts with, as a stream in `direction` that ends with it.
pub open spec fn frame_at(input: Seq<u8>, direction: Direction) -> FrameAt {
    if input.len() == 0 {
        FrameAt::End
    } else if input.len() < 5 {
        FrameAt::Bad(ProtocolError::Truncated)
    } else {
        let length = wire::be_value(input.subrange(1, 5));
        match header_refusal(input[0], length, direction) {
            Some(error) => FrameAt::Bad(error),
            None => if input.len() < 5 + length {
                FrameAt::Bad(ProtocolError::Truncated)
            } else {
                FrameAt::Raw { kind: input[0], payload: input.subrange(5, 5 + length as int) }
            },
        }
    }
}

/// The frame that a payload stands for, where `found` is what a reader of JSON
/// found in it.
pub open spec fn frame_of(kind: u8, payload: Seq<u8>, found: JsonPayload) -> Result<
    FrameView,
    ProtocolError,
> {
    let offset = wire::be_value(payload.take(8)) as u64;
    if kind == 1 || kind == 3 || kind == 4 {
        if payload.len() < 8 {
            Err(ProtocolError::DataLength)
        } else if wire::be_value(payload.take(8)) + (payload.len() - 8) > u64::MAX {
            Err(ProtocolError::PositionOverflow)
        } else if kind == 1 {
            Ok(FrameView::StdinData { offset, data: payload.skip(8) })
        } else if kind == 3 {
            Ok(FrameView::StdoutData { offset, data: payload.skip(8) })
        } else {
            Ok(FrameView::StderrData { offset, data: payload.skip(8) })
        }
    } else if kind == 2 || kind == 5 {
        if payload.len() != 8 {
            Err(ProtocolError::OffsetLength)
        } else if kind == 2 {
            Ok(FrameView::StdinEof { offset })
        } else {
            Ok(FrameView::StdinPosition { offset })
        }
    } else if kind == 6 {
        match exit_in(payload, found.exit()) {
            Some(result) => if result.is_actual() {
                Ok(FrameView::Exit(result))
            } else {
                Err(ProtocolError::ExitShape)
            },
            None => Err(ProtocolError::ExitPayload),
        }
    } else if kind == 7 || kind == 8 {
        match found {
            JsonPayload::Fact(fact) => match fact.verdict(kind == 8) {
                Ok(_) => if kind == 7 {
                    Ok(FrameView::OutputState(fact))
                } else {
                    Ok(FrameView::OutputEnd(fact))
                },
                Err(error) => Err(error),
            },
            _ => Err(ProtocolError::FactPayload),
        }
    } else {
        Err(ProtocolError::UnknownType(kind))
    }
}

/// Reads the five bytes before a payload: its type and its length.
pub fn read_header(header: &[u8], direction: Direction) -> (r: Result<(u8, usize), ProtocolError>)
    requires
        header@.len() == 5,
    ensures
        match r {
            Ok((kind, length)) => {
                &&& kind == header@[0]
                &&& length == wire::be_value(header@.subrange(1, 5))
                &&& header_refusal(kind, length as nat, direction) is None
            },
            Err(error) => header_refusal(
                header@[0],
                wire::be_value(header@.subrange(1, 5)),
                direction,
            ) == Some(error),
        },
{
    let kind: u8 = header[0];
    let tail = vstd::slice::slice_subrange(header, 1, 5);
    let number: u64 = be_number(tail);
    proof {
        wire::be_bounds();
    }
    let length: usize = number as usize;
    match validate_header(kind, length, direction) {
        Ok(()) => Ok((kind, length)),
        Err(error) => Err(error),
    }
}

/// Takes the frame that `input` starts with, with its payload uninterpreted.
/// `None` is the end of the stream.
pub fn read_raw_frame(input: &[u8], direction: Direction) -> (r: Result<
    Option<RawFrame>,
    ProtocolError,
>)
    ensures
        match r {
            Ok(None) => frame_at(input@, direction) is End,
            Ok(Some(raw)) => frame_at(input@, direction) == (FrameAt::Raw {
                kind: raw.kind,
                payload: raw.payload@,
            }),
            Err(error) => frame_at(input@, direction) == FrameAt::Bad(error),
        },
{
    if input.len() == 0 {
        return Ok(None);
    }
    if input.len() < 5 {
        return Err(ProtocolError::Truncated);
    }
    let header = vstd::slice::slice_subrange(input, 0, 5);
    assert(header@.subrange(1, 5) =~= input@.subrange(1, 5));
    let (kind, length) = match read_header(header, direction) {
        Ok(found) => found,
        Err(error) => {
            return Err(error);
        },
    };
    if input.len() - 5 < length {
        return Err(ProtocolError::Truncated);
    }
    let payload = bytes_range(input, 5, 5 + length);
    Ok(Some(RawFrame { kind, payload }))
}

/// The exit result in a payload.
pub fn read_exit(payload: &[u8], found: JsonPayload) -> (r: Option<ExitResult>)
    ensures
        r == exit_in(payload@, found.exit()),
{
    match written_exit(payload) {
        Some(result) => {
            proof {
                let chosen = exit_in(payload@, found.exit())->0;
                written_exits_differ(result, chosen);
            }
            Some(result)
        },
        None => match found {
            JsonPayload::Exit(result) => Some(result),
            _ => None,
        },
    }
}

impl RawFrame {
    /// Interprets the payload. `found` is what a reader of JSON found in it; it
    /// matters only for output facts, and for exits in another form than that in
    /// which they are written.
    pub fn decode(&self, found: JsonPayload) -> (r: Result<Frame, ProtocolError>)
        ensures
            match r {
                Ok(frame) => frame_of(self.kind, self.payload@, found) == Ok::<
                    FrameView,
                    ProtocolError,
                >(frame@),
                Err(error) => frame_of(self.kind, self.payload@, found) == Err::<
                    FrameView,
                    ProtocolError,
                >(error),
            },
    {
        match self.kind {
            1 | 3 | 4 => {
                let (offset, data) = match split_offset(self.payload.as_slice()) {
                    Ok(parts) => parts,
                    Err(error) => {
                        return Err(error);
                    },
                };
                if self.kind == 1 {
                    Ok(Frame::StdinData { offset, data })
                } else if self.kind == 3 {
                    Ok(Frame::StdoutData { offset, data })
                } else {
                    Ok(Frame::StderrData { offset, data })
                }
            },
            2 | 5 => {
                let offset: u64 = match only_offset(self.payload.as_slice()) {
                    Ok(offset) => offset,
                    Err(error) => {
                        return Err(error);
                    },
                };
                assert(self.payload@.take(8) =~= self.payload@);
                if self.kind == 2 {
                    Ok(Frame::StdinEof { offset })
                } else {
                    Ok(Frame::StdinPosition { offset })
                }
            },
            6 => match read_exit(self.payload.as_slice(), found) {
                Some(result) => match result.validate() {
                    Ok(()) => Ok(Frame::Exit(result)),
                    Err(error) => Err(error),
                },
                None => Err(ProtocolError::ExitPayload),
            },
            7 | 8 => match found {
                JsonPayload::Fact(fact) => match fact.validate(self.kind == 8) {
                    Ok(()) => {
                        if self.kind == 7 {
                            Ok(Frame::OutputState(fact))
                        } else {
                            Ok(Frame::OutputEnd(fact))
                        }
                    },
                    Err(error) => Err(error),
                },
                _ => Err(ProtocolError::FactPayload),
            },
            other => Err(ProtocolError::UnknownType(other)),
        }
    }
}

/// The bytes of a frame. `json` is the JSON text of the output fact that the
/// frame carries, if it carries one.
pub fn write_frame(frame: &Frame, json: &[u8]) -> (r: Result<Vec<u8>, ProtocolError>)
    ensures
        match r {
            Ok(bytes) => frame@.refusal(json@) is None && bytes@ == framed(
                frame@.kind(),
                frame@.payload(json@),
            ),
            Err(error) => frame@.refusal(json@) == Some(error),
        },
{
    let (kind, payload): (u8, Vec<u8>) = match frame {
        Frame::StdinData { offset, data } => match offset_payload(*offset, data.as_slice()) {
            Ok(payload) => (1, payload),
            Err(error) => {
                return Err(error);
            },
        },
        Frame::StdinEof { offset } => (2, u64_bytes(*offset)),
        Frame::StdoutData { offset, data } => match offset_payload(*offset, data.as_slice()) {
            Ok(payload) => (3, payload),
            Err(error) => {
                return Err(error);
            },
        },
        Frame::StderrData { offset, data } => match offset_payload(*offset, data.as_slice()) {
            Ok(payload) => (4, payload),
            Err(error) => {
                return Err(error);
            },
        },
        Frame::StdinPosition { offset } => (5, u64_bytes(*offset)),
        Frame::Exit(result) => (6, exit_json(result)),
        Frame::OutputState(_) => (7, bytes_copy(json)),
        Frame::OutputEnd(_) => (8, bytes_copy(json)),
    };
    if payload.len() > MAX_FRAME {
        proof {
            assert forall|n: nat| #[trigger] wire::be_bytes(n, 8).len() == 8 by {
                wire::be_bytes_len(n, 8);
            }
        }
        return Err(ProtocolError::FrameTooLarge);
    }
    let mut bytes: Vec<u8> = Vec::new();
    bytes.push(kind);
    let length: u32 = payload.len() as u32;
    bytes.extend_from_slice(u32_bytes(length).as_slice());
    bytes.extend_from_slice(payload.as_slice());
    assert(bytes@ =~= framed(kind, payload@));
    Ok(bytes)
}

impl FrameView {
    /// Whether the frame can be written and read: `direction` carries it, and
    /// where it carries an output fact, `json` is text in which a reader finds
    /// that fact.
    pub open spec fn readable(
        self,
        json: Seq<u8>,
        found: JsonPayload,
        direction: Direction,
    ) -> bool {
        &&& self.refusal(json) is None
        &&& kind_allowed(self.kind(), direction)
        &&& match self {
            FrameView::Exit(result) => result.is_actual(),
            FrameView::OutputState(own) => own.verdict(false) is Ok && found
                == JsonPayload::Fact(own) && 1
                <= json.len() <= MAX_FACT_PAYLOAD,
            FrameView::OutputEnd(own) => own.verdict(true) is Ok && found
                == JsonPayload::Fact(own) && 1
                <= json.len() <= MAX_FACT_PAYLOAD,
            _ => true,
        }
    }

    /// The bytes of the frame, with others behind it.
    pub open spec fn sent(self, json: Seq<u8>, rest: Seq<u8>) -> Seq<u8> {
        framed(self.kind(), self.payload(json)) + rest
    }
}

/// Reads the frame that `input` starts with, and says how many bytes it has.
/// `None` is the end of the stream. `found` is what a reader of JSON finds in the
/// payload; it matters only for output facts, and for exits in another form than
/// that in which they are written. Every frame is read as it was written, with
/// nothing taken from what follows it.
pub fn read_frame(input: &[u8], direction: Direction, found: JsonPayload) -> (r: Result<
    Option<(Frame, usize)>,
    ProtocolError,
>)
    ensures
        match r {
            Ok(None) => frame_at(input@, direction) is End,
            Ok(Some((frame, count))) => {
                &&& frame_at(input@, direction) matches FrameAt::Raw { kind, payload }
                &&& frame_of(kind, payload, found) == Ok::<FrameView, ProtocolError>(frame@)
                &&& count == 5 + payload.len()
            },
            Err(error) => match frame_at(input@, direction) {
                FrameAt::End => false,
                FrameAt::Bad(fault) => error == fault,
                FrameAt::Raw { kind, payload } => frame_of(kind, payload, found) == Err::<
                    FrameView,
                    ProtocolError,
                >(error),
            },
        },
        forall|frame: FrameView, json: Seq<u8>, rest: Seq<u8>|
            #![trigger frame.sent(json, rest)]
            input@ == frame.sent(json, rest) && frame.readable(json, found, direction) ==> {
                &&& r matches Ok(Some((read, count)))
                &&& read@ == frame
                &&& count + rest.len() == input@.len()
            },
{
    proof {
        assert forall|frame: FrameView, json: Seq<u8>, rest: Seq<u8>|
            #![trigger frame.sent(json, rest)]
            input@ == frame.sent(json, rest) && frame.readable(
                json,
                found,
                direction,
            ) implies frame_at(input@, direction) == (FrameAt::Raw {
            kind: frame.kind(),
            payload: frame.payload(json),
        }) && frame_of(frame.kind(), frame.payload(json), found) == Ok::<
            FrameView,
            ProtocolError,
        >(frame) && input@.len() == 5 + frame.payload(json).len() + rest.len() by {
            frames_round_trip(frame, json, found, direction, rest);
        }
    }
    let raw = match read_raw_frame(input, direction) {
        Ok(Some(raw)) => raw,
        Ok(None) => {
            return Ok(None);
        },
        Err(error) => {
            return Err(error);
        },
    };
    let count: usize = 5 + raw.payload.len();
    match raw.decode(found) {
        Ok(frame) => Ok(Some((frame, count))),
        Err(error) => Err(error),
    }
}

/// A frame that was written is found again with its own payload, and nothing is
/// taken from what follows it; and its payload stands for the same frame.
pub proof fn frames_round_trip(
    frame: FrameView,
    json: Seq<u8>,
    found: JsonPayload,
    direction: Direction,
    rest: Seq<u8>,
)
    requires
        frame.readable(json, found, direction),
    ensures
        ({
            let payload = frame.payload(json);
            &&& frame_at(frame.sent(json, rest), direction) == (FrameAt::Raw {
                kind: frame.kind(),
                payload,
            })
            &&& frame.sent(json, rest).len() == 5 + payload.len() + rest.len()
            &&& frame_of(frame.kind(), payload, found) == Ok::<
                FrameView,
                ProtocolError,
            >(frame)
        }),
{
    let payload = frame.payload(json);
    let input = frame.sent(json, rest);
    wire::be_bounds();
    match frame {
        FrameView::StdinData { offset, data }
        | FrameView::StdoutData { offset, data }
        | FrameView::StderrData { offset, data } => {
            wire::be_bytes_len(offset as nat, 8);
            wire::be_value_of_bytes(offset as nat, 8);
            assert(payload.take(8) =~= wire::be_bytes(offset as nat, 8));
            assert(payload.skip(8) =~= data);
        },
        FrameView::StdinEof { offset } | FrameView::StdinPosition { offset } => {
            wire::be_bytes_len(offset as nat, 8);
            wire::be_value_of_bytes(offset as nat, 8);
            assert(payload.take(8) =~= payload);
        },
        FrameView::Exit(result) => {
            exit_text_parts(result);
            assert(is_written_exit(payload));
            written_exits_differ(result, exit_in(payload, found.exit())->0);
        },
        _ => {},
    }
    wire::be_bytes_len(payload.len(), 4);
    wire::be_value_of_bytes(payload.len(), 4);
    assert(input.subrange(1, 5) =~= wire::be_bytes(payload.len(), 4));
    assert(input.subrange(5, 5 + payload.len() as int) =~= payload);
}

/// A frame that was cut short anywhere behind its first byte is refused, never
/// read as a frame and never taken for the end of the stream.
pub proof fn cut_frames_are_refused(
    frame: FrameView,
    json: Seq<u8>,
    found: JsonPayload,
    direction: Direction,
    kept: nat,
)
    requires
        frame.readable(json, found, direction),
        0 < kept < frame.sent(json, Seq::empty()).len(),
    ensures
        frame_at(frame.sent(json, Seq::empty()).take(kept as int), direction) == FrameAt::Bad(
            ProtocolError::Truncated,
        ),
{
    let whole = frame.sent(json, Seq::empty());
    let cut = whole.take(kept as int);
    frames_round_trip(frame, json, found, direction, Seq::empty());
    if kept >= 5 {
        assert(cut.subrange(1, 5) =~= whole.subrange(1, 5));
    }
}

/// A refused header is refused whatever follows it, so nothing of its payload
/// needs to be read or allocated first.
pub proof fn bad_header_needs_no_payload(header: Seq<u8>, rest: Seq<u8>, direction: Direction)
    requires
        header.len() == 5,
        header_refusal(header[0], wire::be_value(header.subrange(1, 5)), direction) is Some,
    ensures
        frame_at(header, direction) is Bad,
        frame_at(header + rest, direction) == frame_at(header, direction),
{
    assert((header + rest).subrange(1, 5) =~= header.subrange(1, 5));
}

/// A bounded attachment never carries an exit frame, and only a bounded one
/// carries output facts.
pub proof fn bounded_streams_are_distinct(length: nat)
    ensures
        header_refusal(6, length, Direction::BoundedOutput) == Some(ProtocolError::DirectionOrType),
        header_refusal(7, length, Direction::Output) == Some(ProtocolError::DirectionOrType),
        header_refusal(8, length, Direction::Output) == Some(ProtocolError::DirectionOrType),
{
}

/// What an opening message has come to.
#[derive(Clone, Copy, Debug, PartialEq, Eq, Structural)]
pub enum LineStep {
    /// The message is not complete.
    More,
    /// The stream ended before the message began.
    End,
    /// The message is complete.
    Line,
}

/// Gathers an opening message one byte at a time, so that nothing behind its
/// newline is consumed.
#[derive(Clone, Debug)]
pub struct LineReader {
    pub line: Vec<u8>,
}

impl LineReader {
    /// A message that may still grow has an acceptable length.
    pub open spec fn valid(self) -> bool {
        self.line@.len() <= MAX_JSON_LINE
    }

    pub fn new() -> (r: LineReader)
        ensures
            r.line@ == Seq::<u8>::empty(),
            r.valid(),
    {
        LineReader { line: Vec::new() }
    }

    /// Takes the next byte of the stream, or its end.
    pub fn accept(&mut self, byte: Option<u8>) -> (r: Result<LineStep, ProtocolError>)
        requires
            old(self).valid(),
        ensures
            match byte {
                None => {
                    &&& final(self).line@ == old(self).line@
                    &&& old(self).line@.len() == 0 ==> r == Ok::<LineStep, ProtocolError>(
                        LineStep::End,
                    )
                    &&& old(self).line@.len() > 0 ==> r == Err::<LineStep, ProtocolError>(
                        ProtocolError::OpeningEnded,
                    )
                },
                Some(b) => if b == 10 {
                    &&& final(self).line@ == old(self).line@
                    &&& r == Ok::<LineStep, ProtocolError>(LineStep::Line)
                } else {
                    &&& final(self).line@ == old(self).line@.push(b)
                    &&& final(self).line@.len() <= MAX_JSON_LINE ==> r == Ok::<
                        LineStep,
                        ProtocolError,
                    >(LineStep::More)
                    &&& final(self).line@.len() > MAX_JSON_LINE ==> r == Err::<
                        LineStep,
                        ProtocolError,
                    >(ProtocolError::OpeningTooLarge)
                },
            },
    {
        match byte {
            None => {
                if self.line.len() == 0 {
                    Ok(LineStep::End)
                } else {
                    Err(ProtocolError::OpeningEnded)
                }
            },
            Some(b) => {
                if b == 10 {
                    Ok(LineStep::Line)
                } else {
                    self.line.push(b);
                    if self.line.len() > MAX_JSON_LINE {
                        Err(ProtocolError::OpeningTooLarge)
                    } else {
                        Ok(LineStep::More)
                    }
                }
            },
        }
    }
}

/// Whether `input` has its first newline at `at`.
pub open spec fn newline_at(input: Seq<u8>, at: int) -> bool {
    &&& 0 <= at < input.len()
    &&& input[at] == 10
    &&& forall|j: int| 0 <= j < at ==> #[trigger] input[j] != 10
}

/// Whether `input` has no newline.
pub open spec fn no_newline(input: Seq<u8>) -> bool {
    forall|j: int| 0 <= j < input.len() ==> #[trigger] input[j] != 10
}

/// Takes the opening message that a whole stream starts with: the bytes before
/// its first newline. `None` is an empty stream.
pub fn read_line(input: &[u8]) -> (r: Result<Option<Vec<u8>>, ProtocolError>)
    ensures
        match r {
            Ok(None) => input@.len() == 0,
            Ok(Some(line)) => newline_at(input@, line@.len() as int) && line@ == input@.take(
                line@.len() as int,
            ) && line@.len() <= MAX_JSON_LINE,
            Err(ProtocolError::OpeningTooLarge) => input@.len() > MAX_JSON_LINE && no_newline(
                input@.take(MAX_JSON_LINE + 1),
            ),
            Err(error) => error == ProtocolError::OpeningEnded && no_newline(input@) && 0
                < input@.len() <= MAX_JSON_LINE,
        },
{
    let mut reader = LineReader::new();
    let mut i: usize = 0;
    loop
        invariant
            i <= input@.len(),
            reader.valid(),
            reader.line@ == input@.take(i as int),
            no_newline(input@.take(i as int)),
        decreases input@.len() - i,
    {
        let byte = if i < input.len() {
            Some(input[i])
        } else {
            None
        };
        let step = reader.accept(byte);
        proof {
            if i < input@.len() {
                assert(input@.take(i as int).push(input@[i as int]) =~= input@.take(i + 1));
                assert forall|j: int| 0 <= j < i implies #[trigger] input@[j] != 10 by {
                    assert(input@.take(i as int)[j] == input@[j]);
                }
            } else {
                assert(input@.take(i as int) =~= input@);
            }
        }
        match step {
            Ok(LineStep::More) => {
                i += 1;
            },
            Ok(LineStep::End) => {
                return Ok(None);
            },
            Ok(LineStep::Line) => {
                return Ok(Some(reader.line));
            },
            Err(error) => {
                return Err(error);
            },
        }
    }
}

/// An exit is accepted exactly if it names either a code from 0 to 255 or a
/// signal from 1 to 127, and not both.
pub proof fn exits_name_one_cause(exit: ExitResult, r: Result<(), ProtocolError>)
    requires
        call_ensures(ExitResult::validate, (&exit,), r),
    ensures
        r is Ok <==> (exit.signal is None && exit.code is Some && 0 <= exit.code->0 <= 255) || (
        exit.code is None && exit.signal is Some && 1 <= exit.signal->0 <= 127),
        r is Err ==> r->Err_0 is ExitShape,
{
}

/// A status is the command's code where there is one, and otherwise 128 and the
/// signal; so the statuses of two possible exits by code, or of two by signal,
/// are alike only if the exits are.
pub proof fn statuses_tell_the_exit(one: ExitResult, other: ExitResult, r: i32, s: i32)
    requires
        one.is_actual(),
        other.is_actual(),
        call_ensures(ExitResult::process_code, (&one,), r),
        call_ensures(ExitResult::process_code, (&other,), s),
    ensures
        one.code is Some ==> r == one.code->0,
        one.code is None ==> r == 128 + one.signal->0,
        (one.code is Some <==> other.code is Some) && r == s ==> one == other,
{
}

/// A header is accepted exactly if its direction carries frames of its type and
/// its length is possible for them: input is data and its end; output is data of
/// both streams, receipts, and either exits or facts.
pub proof fn headers_fit_their_direction(
    kind: u8,
    length: usize,
    direction: Direction,
    r: Result<(), ProtocolError>,
)
    requires
        call_ensures(validate_header, (kind, length, direction), r),
    ensures
        ({
            let carried = match direction {
                Direction::Input => kind == 1 || kind == 2,
                Direction::Output => kind == 3 || kind == 4 || kind == 5 || kind == 6,
                Direction::BoundedOutput => kind == 3 || kind == 4 || kind == 5 || kind == 7 || kind
                    == 8,
            };
            let fits = match kind {
                1 | 3 | 4 => 8 <= length <= 16_777_216,
                2 | 5 => length == 8,
                6 => 1 <= length <= 256,
                _ => 1 <= length <= 4096,
            };
            &&& r is Ok <==> carried && fits
            &&& r is Err ==> (r->Err_0 is DirectionOrType <==> !carried)
            &&& r is Err && carried ==> r->Err_0 is PayloadLength
        }),
{
}

/// The number that four bytes stand for, the first of them being the highest.
pub open spec fn four_bytes(bytes: Seq<u8>, at: int) -> int {
    ((bytes[at] * 256 + bytes[at + 1]) * 256 + bytes[at + 2]) * 256 + bytes[at + 3]
}

proof fn be_value_of_four(bytes: Seq<u8>, at: int)
    requires
        0 <= at,
        at + 4 <= bytes.len(),
    ensures
        wire::be_value(bytes.subrange(at, at + 4)) == four_bytes(bytes, at),
{
    reveal_with_fuel(wire::be_value, 5);
    let four = bytes.subrange(at, at + 4);
    assert(four.drop_last() =~= bytes.subrange(at, at + 3));
    assert(four.drop_last().drop_last() =~= bytes.subrange(at, at + 2));
    assert(four.drop_last().drop_last().drop_last() =~= bytes.subrange(at, at + 1));
    assert(four.drop_last().drop_last().drop_last().drop_last() =~= Seq::<u8>::empty());
}

proof fn be_value_of_eight(bytes: Seq<u8>, at: int)
    requires
        0 <= at,
        at + 8 <= bytes.len(),
    ensures
        wire::be_value(bytes.subrange(at, at + 8)) == four_bytes(bytes, at) * 0x1_0000_0000
            + four_bytes(bytes, at + 4),
{
    be_value_of_four(bytes, at);
    reveal_with_fuel(wire::be_value, 5);
    let eight = bytes.subrange(at, at + 8);
    assert(eight.drop_last() =~= bytes.subrange(at, at + 7));
    assert(eight.drop_last().drop_last() =~= bytes.subrange(at, at + 6));
    assert(eight.drop_last().drop_last().drop_last() =~= bytes.subrange(at, at + 5));
    assert(eight.drop_last().drop_last().drop_last().drop_last() =~= bytes.subrange(at, at + 4));
}

/// A frame is its type, the length of its payload in four bytes, and its payload.
/// Data begins with its offset in eight bytes; ends of input and receipts are
/// nothing but one.
pub proof fn frames_have_one_layout(
    frame: Frame,
    json: &[u8],
    r: Result<Vec<u8>, ProtocolError>,
)
    requires
        call_ensures(write_frame, (&frame, json), r),
        r is Ok,
    ensures
        ({
            let bytes = r->Ok_0@;
            &&& bytes.len() >= 5
            &&& four_bytes(bytes, 1) == bytes.len() - 5
            &&& bytes[0] == (match frame {
                Frame::StdinData { .. } => 1u8,
                Frame::StdinEof { .. } => 2,
                Frame::StdoutData { .. } => 3,
                Frame::StderrData { .. } => 4,
                Frame::StdinPosition { .. } => 5,
                Frame::Exit(_) => 6,
                Frame::OutputState(_) => 7,
                Frame::OutputEnd(_) => 8,
            })
            &&& match frame {
                Frame::StdinData { offset, data }
                | Frame::StdoutData { offset, data }
                | Frame::StderrData { offset, data } => bytes.len() == 13 + data@.len()
                    && four_bytes(bytes, 5) * 0x1_0000_0000 + four_bytes(bytes, 9) == offset
                    && bytes.skip(13) == data@ && offset + data@.len() <= u64::MAX,
                Frame::StdinEof { offset } | Frame::StdinPosition { offset } => bytes.len() == 13
                    && four_bytes(bytes, 5) * 0x1_0000_0000 + four_bytes(bytes, 9) == offset,
                Frame::Exit(_) => true,
                Frame::OutputState(_) | Frame::OutputEnd(_) => bytes.skip(5) == json@,
            }
        }),
{
    let bytes = r->Ok_0@;
    let payload = frame@.payload(json@);
    wire::be_bounds();
    match frame {
        Frame::StdinData { offset, data }
        | Frame::StdoutData { offset, data }
        | Frame::StderrData { offset, data } => {
            wire::be_bytes_len(offset as nat, 8);
            wire::be_value_of_bytes(offset as nat, 8);
        },
        Frame::StdinEof { offset } | Frame::StdinPosition { offset } => {
            wire::be_bytes_len(offset as nat, 8);
            wire::be_value_of_bytes(offset as nat, 8);
        },
        _ => {},
    }
    wire::be_bytes_len(payload.len(), 4);
    wire::be_value_of_bytes(payload.len(), 4);
    assert(bytes.subrange(1, 5) =~= wire::be_bytes(payload.len(), 4));
    be_value_of_four(bytes, 1);
    match frame {
        Frame::StdinData { offset, data }
        | Frame::StdoutData { offset, data }
        | Frame::StderrData { offset, data } => {
            assert(bytes.subrange(5, 13) =~= wire::be_bytes(offset as nat, 8));
            be_value_of_eight(bytes, 5);
            assert(bytes.skip(13) =~= data@);
        },
        Frame::StdinEof { offset } | Frame::StdinPosition { offset } => {
            assert(bytes.subrange(5, 13) =~= wire::be_bytes(offset as nat, 8));
            be_value_of_eight(bytes, 5);
        },
        Frame::OutputState(_) | Frame::OutputEnd(_) => {
            assert(bytes.skip(5) =~= json@);
        },
        _ => {},
    }
}

/// A frame is written unless it is too large or its data passes the last
/// position: what is refused, and why.
pub proof fn only_oversized_frames_are_refused(
    frame: Frame,
    json: &[u8],
    r: Result<Vec<u8>, ProtocolError>,
)
    requires
        call_ensures(write_frame, (&frame, json), r),
    ensures
        match frame {
            Frame::StdinData { offset, data }
            | Frame::StdoutData { offset, data }
            | Frame::StderrData { offset, data } => {
                &&& r is Ok <==> data@.len() <= 16_777_208 && offset + data@.len() <= u64::MAX
                &&& r is Err ==> (r->Err_0 is FrameTooLarge <==> data@.len() > 16_777_208)
                &&& r is Err && data@.len() <= 16_777_208 ==> r->Err_0 is PositionOverflow
            },
            Frame::StdinEof { .. } | Frame::StdinPosition { .. } => r is Ok,
            Frame::Exit(exit) => exit.is_actual() ==> r is Ok,
            Frame::OutputState(_) | Frame::OutputEnd(_) => r is Ok <==> json@.len() <= 16_777_216,
        },
{
    if let Frame::Exit(exit) = frame {
        if exit.is_actual() {
            exit_text_parts(exit);
        }
    }
}

/// What is read is what is on the wire: a frame has the type, the offset and the
/// bytes that stand there, and reading takes exactly the frame's own bytes.
pub proof fn frames_are_read_as_they_stand(
    input: &[u8],
    direction: Direction,
    found: JsonPayload,
    r: Result<Option<(Frame, usize)>, ProtocolError>,
)
    requires
        call_ensures(read_frame, (input, direction, found), r),
    ensures
        r matches Ok(None) ==> input@.len() == 0,
        input@.len() == 0 ==> r == Ok::<Option<(Frame, usize)>, ProtocolError>(None),
        r matches Ok(Some((frame, count))) ==> {
            &&& 5 <= count <= input@.len()
            &&& count == 5 + four_bytes(input@, 1)
            &&& match frame {
                Frame::StdinData { offset, data } => input@[0] == 1 && direction is Input && data@
                    == input@.subrange(13, count as int) && offset == four_bytes(input@, 5)
                    * 0x1_0000_0000 + four_bytes(input@, 9),
                Frame::StdinEof { offset } => input@[0] == 2 && direction is Input && count == 13
                    && offset == four_bytes(input@, 5) * 0x1_0000_0000 + four_bytes(input@, 9),
                Frame::StdoutData { offset, data } => input@[0] == 3 && direction !is Input && data@
                    == input@.subrange(13, count as int) && offset == four_bytes(input@, 5)
                    * 0x1_0000_0000 + four_bytes(input@, 9),
                Frame::StderrData { offset, data } => input@[0] == 4 && direction !is Input && data@
                    == input@.subrange(13, count as int) && offset == four_bytes(input@, 5)
                    * 0x1_0000_0000 + four_bytes(input@, 9),
                Frame::StdinPosition { offset } => input@[0] == 5 && direction !is Input && count
                    == 13 && offset == four_bytes(input@, 5) * 0x1_0000_0000 + four_bytes(
                    input@,
                    9,
                ),
                Frame::Exit(exit) => input@[0] == 6 && direction is Output && exit.is_actual()
                    && count <= 261,
                Frame::OutputState(fact) => input@[0] == 7 && direction is BoundedOutput && found
                    == JsonPayload::Fact(fact),
                Frame::OutputEnd(fact) => input@[0] == 8 && direction is BoundedOutput && found
                    == JsonPayload::Fact(fact),
            }
        },
{
    if let Ok(Some((frame, count))) = r {
        let payload = input@.subrange(5, count as int);
        be_value_of_four(input@, 1);
        assert(count <= input@.len());
        if count >= 13 {
            be_value_of_eight(input@, 5);
            assert(payload.take(8) =~= input@.subrange(5, 13));
            assert(payload.skip(8) =~= input@.subrange(13, count as int));
            wire::be_bounds();
        }
    }
}

/// An opening message is what stands before the first newline, however long the
/// stream goes on behind it, unless it is longer than 65536 bytes.
pub proof fn opening_messages_end_at_the_newline(
    input: &[u8],
    at: int,
    r: Result<Option<Vec<u8>>, ProtocolError>,
)
    requires
        call_ensures(read_line, (input,), r),
        0 <= at < input@.len(),
        input@[at] == 10,
        forall|j: int| 0 <= j < at ==> #[trigger] input@[j] != 10,
    ensures
        at <= 65_536 ==> (r matches Ok(Some(line)) && line@ == input@.take(at)),
        at > 65_536 ==> r is Err && r->Err_0 is OpeningTooLarge,
{
    match r {
        Ok(Some(line)) => {
            assert(input@[line@.len() as int] == 10);
            if line@.len() < at {
                assert(input@[line@.len() as int] != 10);
            }
            if at < line@.len() {
                assert(input@[at] != 10);
            }
        },
        Err(ProtocolError::OpeningTooLarge) => {
            if at <= 65_536 {
                assert(input@.take(65_537)[at] == 10);
            }
        },
        Err(error) => {
            assert(input@[at] != 10);
        },
        _ => {},
    }
}

/// A stream without a newline is no opening message: it is the end if it is
/// empty, too large if it is longer than 65536 bytes, and cut off otherwise.
pub proof fn unfinished_openings_are_refused(
    input: &[u8],
    r: Result<Option<Vec<u8>>, ProtocolError>,
)
    requires
        call_ensures(read_line, (input,), r),
        forall|j: int| 0 <= j < input@.len() ==> #[trigger] input@[j] != 10,
    ensures
        input@.len() == 0 <==> r is Ok,
        r is Ok ==> r->Ok_0 is None,
        input@.len() > 65_536 ==> r is Err && r->Err_0 is OpeningTooLarge,
        0 < input@.len() <= 65_536 ==> r is Err && r->Err_0 is OpeningEnded,
{
    if let Ok(Some(line)) = r {
        assert(input@[line@.len() as int] != 10);
    }
}

/// An exit is written as a JSON object with its code, or with its signal; what was
/// written is recognised as the same exit, and nothing else is.
pub proof fn exits_are_written_as_json(
    exit: ExitResult,
    bytes: Vec<u8>,
    payload: &[u8],
    r: Option<ExitResult>,
)
    requires
        call_ensures(exit_json, (&exit,), bytes),
        payload@ == bytes@,
        exit.is_actual(),
        call_ensures(written_exit, (payload,), r),
    ensures
        exit.code matches Some(code) ==> bytes@ == vstd::utf8::encode_utf8(
            "{\""@ + "code"@ + "\":"@ + text::signed_decimal(code as int) + "}"@,
        ),
        exit.code is None ==> bytes@ == vstd::utf8::encode_utf8(
            "{\""@ + "signal"@ + "\":"@ + text::signed_decimal(exit.signal->0 as int) + "}"@,
        ),
        r == Some(exit),
{
    match r {
        Some(found) => {
            written_exits_differ(found, exit);
        },
        None => {
            assert(exit_payload(exit) == payload@);
        },
    }
}

/// A payload that is an exit as it is written is read as that exit, whatever else is
/// found there; another one is read as what is found there.
pub proof fn written_exits_are_read(
    payload: &[u8],
    found: JsonPayload,
    known: Option<ExitResult>,
    r: Option<ExitResult>,
)
    requires
        call_ensures(written_exit, (payload,), known),
        call_ensures(read_exit, (payload, found), r),
    ensures
        known is Some ==> r == known,
        known is None ==> (found matches JsonPayload::Exit(exit) ==> r == Some(exit)),
        known is None && !(found is Exit) ==> r is None,
{
    if let Some(exit) = known {
        assert(is_written_exit(payload@));
        written_exits_differ(exit, exit_in(payload@, found.exit())->0);
    }
}

/// An unknown type of frame is named by its number.
pub proof fn unknown_types_are_named(kind: u8, r: String)
    requires
        call_ensures(ProtocolError::message, (&ProtocolError::UnknownType(kind),), r),
    ensures
        r@ == "unknown frame type "@ + text::decimal(kind as nat),
{
}

/// An opening message is gathered byte by byte up to its newline, which is not part
/// of it; a byte too many or an early end is refused.
pub proof fn lines_are_gathered_byte_by_byte(
    reader: &mut LineReader,
    byte: Option<u8>,
    r: Result<LineStep, ProtocolError>,
)
    requires
        old(reader).valid(),
        call_ensures(LineReader::accept, (reader, byte), r),
    ensures
        byte matches Some(b) ==> {
            &&& b == 10 ==> r == Ok::<LineStep, ProtocolError>(LineStep::Line)
                && final(reader).line@ == old(reader).line@
            &&& b != 10 ==> final(reader).line@ == old(reader).line@ + seq![b]
            &&& b != 10 && old(reader).line@.len() < 65_536 ==> r == Ok::<LineStep, ProtocolError>(
                LineStep::More,
            )
            &&& b != 10 && old(reader).line@.len() >= 65_536 ==> r is Err
        },
        byte is None ==> (r is Ok <==> old(reader).line@.len() == 0) && final(reader).line@ == old(reader).line@,
{
    if let Some(b) = byte {
        assert(old(reader).line@.push(b) =~= old(reader).line@ + seq![b]);
    }
}

/// A malformed message says why.
pub proof fn malformed_messages_say_why(error: ProtocolError, r: String)
    requires
        call_ensures(ProtocolError::message, (&error,), r),
    ensures
        error is OpeningEnded ==> r@ == "connection ended in the opening JSON message"@,
        error is OpeningTooLarge ==> r@ == "opening JSON message is too large"@,
        error is FrameTooLarge ==> r@ == "frame is too large"@,
        error is PositionOverflow ==> r@ == "frame position overflowed"@,
        error is DirectionOrType ==> r@ == "frame has invalid direction or type"@,
        error is PayloadLength ==> r@ == "frame has invalid length or exceeds the size limit"@,
        error is Truncated ==> r@ == "early eof"@,
        error is ExitPayload ==> r@ == "invalid exit frame payload"@,
        error is ExitShape ==> r@ == "exit frame must contain one actual code or signal"@,
        error is FactPayload ==> r@ == "invalid output frame payload"@,
        error is FactAccounting ==> r@ == "invalid bounded accounting"@,
        error is FactRange ==> r@ == "invalid finite output fact"@,
        error is FactCompleteness ==> r@ == "invalid output completeness fact"@,
        error is FactUnsettled ==> r@
            == "unconfirmed storage or collection cannot be a replay end"@,
        error is OffsetLength ==> r@ == "offset frame has an invalid length"@,
        error is DataLength ==> r@ == "data frame has an invalid length"@,
{
}

/// What was put behind an offset is found behind it again, and only what is too
/// large or passes the last position is refused.
pub proof fn payloads_are_split_as_they_were_joined(
    offset: u64,
    data: &[u8],
    length: usize,
    r: Result<Vec<u8>, ProtocolError>,
    payload: &[u8],
    s: Result<(u64, Vec<u8>), ProtocolError>,
    end: Result<u64, ProtocolError>,
)
    requires
        call_ensures(offset_payload, (offset, data), r),
        r matches Ok(joined) ==> payload@ == joined@,
        call_ensures(split_offset, (payload,), s),
        length == data@.len(),
        call_ensures(checked_end, (offset, length), end),
    ensures
        r is Ok <==> data@.len() <= 16_777_208 && offset + data@.len() <= u64::MAX,
        r is Ok ==> (s matches Ok((found, bytes)) && found == offset && bytes@ == data@),
        r matches Ok(joined) ==> joined@.len() == 8 + data@.len(),
        end is Ok <==> offset + data@.len() <= u64::MAX,
        end matches Ok(position) ==> position == offset + data@.len(),
        end matches Err(error) ==> error is PositionOverflow,
{
    if r is Ok {
        wire::be_bytes_len(offset as nat, 8);
        wire::be_bounds();
        wire::be_value_of_bytes(offset as nat, 8);
        assert(payload@.take(8) =~= wire::be_bytes(offset as nat, 8));
        assert(payload@.skip(8) =~= data@);
    }
}

/// An offset is the number that eight bytes are, most significant byte first; any
/// other number of bytes is refused.
pub proof fn offsets_are_eight_bytes(
    payload: &[u8],
    r: Result<u64, ProtocolError>,
    s: Result<(u64, Vec<u8>), ProtocolError>,
)
    requires
        call_ensures(only_offset, (payload,), r),
        call_ensures(split_offset, (payload,), s),
    ensures
        r is Ok <==> payload@.len() == 8,
        r matches Ok(offset) ==> offset == four_bytes(payload@, 0) * 0x1_0000_0000 + four_bytes(
            payload@,
            4,
        ),
        r matches Err(error) ==> error is OffsetLength,
        s matches Ok((offset, data)) ==> payload@.len() >= 8 && data@ == payload@.skip(8) && offset
            == four_bytes(payload@, 0) * 0x1_0000_0000 + four_bytes(payload@, 4),
        payload@.len() < 8 ==> s is Err && s->Err_0 is DataLength,
        payload@.len() >= 8 && s is Err ==> s->Err_0 is PositionOverflow && four_bytes(payload@, 0)
            * 0x1_0000_0000 + four_bytes(payload@, 4) + (payload@.len() - 8) > u64::MAX,
{
    if payload@.len() >= 8 {
        assert(payload@.subrange(0, 8) =~= payload@.take(8));
        if payload@.len() == 8 {
            assert(payload@.take(8) =~= payload@);
        }
        be_value_of_eight(payload@, 0);
        wire::be_bounds();
    }
}

/// A frame is taken from the wire with its type and its payload as they stand; a
/// header that is refused by itself is refused for the same reason, and what is cut
/// off is told apart from the end of the stream.
pub proof fn raw_frames_are_taken_as_they_stand(
    input: &[u8],
    header: &[u8],
    direction: Direction,
    checked: Result<(), ProtocolError>,
    opened: Result<(u8, usize), ProtocolError>,
    r: Result<Option<RawFrame>, ProtocolError>,
)
    requires
        call_ensures(read_raw_frame, (input, direction), r),
        input@.len() >= 5 ==> {
            &&& header@ == input@.take(5)
            &&& call_ensures(read_header, (header, direction), opened)
            &&& call_ensures(
                validate_header,
                (input@[0], four_bytes(input@, 1) as usize, direction),
                checked,
            )
        },
    ensures
        input@.len() == 0 <==> (r matches Ok(None)),
        0 < input@.len() < 5 ==> r is Err && r->Err_0 is Truncated,
        input@.len() >= 5 ==> {
            let length = four_bytes(input@, 1);
            &&& opened is Ok <==> checked is Ok
            &&& opened matches Ok((kind, count)) ==> kind == input@[0] && count == length
            &&& opened matches Err(error) ==> checked == Err::<(), ProtocolError>(error) && r
                == Err::<Option<RawFrame>, ProtocolError>(error)
            &&& opened is Ok && input@.len() < 5 + length ==> r is Err && r->Err_0 is Truncated
            &&& opened is Ok && input@.len() >= 5 + length ==> (r matches Ok(Some(raw)) && raw.kind
                == input@[0] && raw.payload@ == input@.subrange(5, 5 + length))
        },
{
    if input@.len() >= 5 {
        be_value_of_four(input@, 1);
        assert(header@.subrange(1, 5) =~= input@.subrange(1, 5));
        wire::be_bounds();
        assert(0 <= four_bytes(input@, 1) <= 0xffff_ffff);
        assert(header@[0] == input@[0]);
    }
}

/// Reading a frame is taking it from the wire and interpreting its payload.
pub proof fn frames_are_taken_and_interpreted(
    input: &[u8],
    direction: Direction,
    found: JsonPayload,
    raw: RawFrame,
    decoded: Result<Frame, ProtocolError>,
    r: Result<Option<(Frame, usize)>, ProtocolError>,
)
    requires
        call_ensures(read_raw_frame, (input, direction), Ok(Some(raw))),
        call_ensures(RawFrame::decode, (&raw, found), decoded),
        call_ensures(read_frame, (input, direction, found), r),
    ensures
        decoded is Ok <==> r is Ok,
        decoded matches Ok(frame) ==> (r matches Ok(Some((read, count))) && read@ == frame@ && count
            == 5 + raw.payload@.len()),
        decoded matches Err(error) ==> r == Err::<Option<(Frame, usize)>, ProtocolError>(error),
{
}

/// A payload stands for what its type says: data and positions as they stand there,
/// an exit only if it is one, a fact only as it was found.
pub proof fn payloads_stand_for_what_their_type_says(
    raw: RawFrame,
    payload: &[u8],
    found: JsonPayload,
    split: Result<(u64, Vec<u8>), ProtocolError>,
    only: Result<u64, ProtocolError>,
    exit: Option<ExitResult>,
    r: Result<Frame, ProtocolError>,
)
    requires
        payload@ == raw.payload@,
        call_ensures(split_offset, (payload,), split),
        call_ensures(only_offset, (payload,), only),
        call_ensures(read_exit, (payload, found), exit),
        call_ensures(RawFrame::decode, (&raw, found), r),
    ensures
        raw.kind == 1 || raw.kind == 3 || raw.kind == 4 ==> {
            &&& r is Ok <==> split is Ok
            &&& split matches Err(error) ==> r == Err::<Frame, ProtocolError>(error)
            &&& r matches Ok(Frame::StdinData { offset, data }) ==> raw.kind == 1 && offset
                == split->Ok_0.0 && data@ == split->Ok_0.1@
            &&& r matches Ok(Frame::StdoutData { offset, data }) ==> raw.kind == 3 && offset
                == split->Ok_0.0 && data@ == split->Ok_0.1@
            &&& r matches Ok(Frame::StderrData { offset, data }) ==> raw.kind == 4 && offset
                == split->Ok_0.0 && data@ == split->Ok_0.1@
        },
        raw.kind == 2 || raw.kind == 5 ==> {
            &&& r is Ok <==> only is Ok
            &&& only matches Err(error) ==> r == Err::<Frame, ProtocolError>(error)
            &&& raw.kind == 2 && only is Ok ==> r == Ok::<Frame, ProtocolError>(
                Frame::StdinEof { offset: only->Ok_0 },
            )
            &&& raw.kind == 5 && only is Ok ==> r == Ok::<Frame, ProtocolError>(
                Frame::StdinPosition { offset: only->Ok_0 },
            )
        },
        raw.kind == 6 ==> {
            &&& exit is None <==> r == Err::<Frame, ProtocolError>(ProtocolError::ExitPayload)
            &&& exit is Some && exit->0.is_actual() ==> r == Ok::<Frame, ProtocolError>(
                Frame::Exit(exit->0),
            )
            &&& exit is Some && !exit->0.is_actual() ==> r == Err::<Frame, ProtocolError>(
                ProtocolError::ExitShape,
            )
        },
        raw.kind == 7 && r is Ok ==> found is Fact && r == Ok::<Frame, ProtocolError>(
            Frame::OutputState(found->Fact_0),
        ),
        raw.kind == 8 && r is Ok ==> found is Fact && r == Ok::<Frame, ProtocolError>(
            Frame::OutputEnd(found->Fact_0),
        ),
        raw.kind == 0 || raw.kind > 8 ==> r == Err::<Frame, ProtocolError>(
            ProtocolError::UnknownType(raw.kind),
        ),
{
    if payload@.len() >= 8 {
        wire::be_bounds();
        assert(payload@.take(8).len() == 8);
        if payload@.len() == 8 {
            assert(payload@.take(8) =~= payload@);
        }
    }
}

/// An opening message begins empty.
pub proof fn lines_begin_empty(r: LineReader)
    requires
        call_ensures(LineReader::new, (), r),
    ensures
        r.line@.len() == 0,
{
}

/// What is not said begins at the start: no positions are wanted, nothing is
/// superseded, and no end of input is known.
pub proof fn openings_begin_at_the_start(hello: ClientHello, offsets: OutputOffsets, all: AllOffsets)
    requires
        call_ensures(ClientHello::default, (), hello),
        call_ensures(OutputOffsets::default, (), offsets),
        call_ensures(AllOffsets::default, (), all),
    ensures
        hello.action is None,
        hello.offsets is None,
        hello.stdin_start == 0,
        hello.stdin_eof is None,
        !hello.force,
        offsets.stdout == 0,
        offsets.stderr == 0,
        all.stdin == 0,
        all.stdout == 0,
        all.stderr == 0,
{
}

} // verus!
