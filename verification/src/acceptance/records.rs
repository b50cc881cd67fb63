//! What the trial writes down, and what it expects to find.
use vstd::prelude::*;

use crate::json;
use crate::json::{json_at, JsonAt, JsonView};
use crate::text;
use crate::text::{
    bytes_equal, decimal_text, join, join3, parse_unsigned, quoted, str_contains, trimmed,
};

verus! {

/// The exit code of the command of the output trial.
pub const WORKLOAD_EXIT: i32 = 42;

/// A number with at least three digits.
pub open spec fn padded(n: nat) -> Seq<char> {
    if n < 10 {
        "00"@ + text::decimal(n)
    } else if n < 100 {
        "0"@ + text::decimal(n)
    } else {
        text::decimal(n)
    }
}

/// One line of a recorded stream.
pub open spec fn stream_line(name: Seq<char>, index: nat) -> Seq<char> {
    name + ":"@ + padded(index) + ":acceptance\n"@
}

/// The first `count` lines of a recorded stream.
pub open spec fn stream_lines(name: Seq<char>, count: nat) -> Seq<char>
    decreases count,
{
    if count == 0 {
        Seq::empty()
    } else {
        stream_lines(name, (count - 1) as nat) + stream_line(name, (count - 1) as nat)
    }
}

/// The whole of a stream that the command writes before and behind its barrier.
pub fn expected_stream(name: &str, counts: (usize, usize)) -> (r: String)
    requires
        counts.0 + counts.1 <= usize::MAX,
    ensures
        r@ == stream_lines(name@, (counts.0 + counts.1) as nat),
{
    let count: usize = counts.0 + counts.1;
    let mut output = "".to_owned();
    proof {
        reveal_strlit("");
    }
    assert(output@ =~= Seq::<char>::empty());
    let mut index: usize = 0;
    while index < count
        invariant
            index <= count,
            output@ == stream_lines(name@, index as nat),
        decreases count - index,
    {
        let ghost before = output@;
        output.append(name);
        output.append(":");
        if index < 10 {
            output.append("00");
        } else if index < 100 {
            output.append("0");
        }
        output.append(decimal_text(index as u64).as_str());
        output.append(":acceptance\n");
        assert(output@ =~= before + stream_line(name@, index as nat));
        index += 1;
    }
    output
}

/// The shell program of the output trial. It refuses to run twice, writes its
/// first lines, waits for the barrier, writes the rest and exits.
pub open spec fn workload_program(root: Seq<char>, before: nat, total: nat) -> Seq<char> {
    "if ! mkdir '"@ + root + "/launch.once' 2>/dev/null; then\n  echo duplicate >> '"@ + root
        + "/duplicate-launch'\n  exit 97\nfi\necho \"$$\" > '"@ + root
        + "/workload.pid'\ni=0\nwhile [ \"$i\" -lt "@ + text::decimal(before)
        + " ]; do\n  printf 'stdout:%03d:acceptance\\n' \"$i\"\n  printf 'stderr:%03d:acceptance\\n' \"$i\" >&2\n  i=$((i + 1))\n  sleep 0.015\ndone\ntouch '"@
        + root + "/prelude.done'\nwhile [ ! -e '"@ + root
        + "/finish.gate' ]; do sleep 0.02; done\nwhile [ \"$i\" -lt "@ + text::decimal(total)
        + " ]; do\n  printf 'stdout:%03d:acceptance\\n' \"$i\"\n  printf 'stderr:%03d:acceptance\\n' \"$i\" >&2\n  i=$((i + 1))\n  sleep 0.015\ndone\ntouch '"@
        + root + "/workload.complete'\nexit "@ + text::decimal(WORKLOAD_EXIT as nat) + "\n"@
}

/// Writes the shell program of the output trial.
pub fn workload_script(root: &str, counts: (usize, usize)) -> (r: String)
    requires
        counts.0 + counts.1 <= usize::MAX,
    ensures
        r@ == workload_program(root@, counts.0 as nat, (counts.0 + counts.1) as nat),
{
    let mut script = "if ! mkdir '".to_owned();
    script.append(root);
    script.append("/launch.once' 2>/dev/null; then\n  echo duplicate >> '");
    script.append(root);
    script.append("/duplicate-launch'\n  exit 97\nfi\necho \"$$\" > '");
    script.append(root);
    script.append("/workload.pid'\ni=0\nwhile [ \"$i\" -lt ");
    script.append(decimal_text(counts.0 as u64).as_str());
    script.append(
        " ]; do\n  printf 'stdout:%03d:acceptance\\n' \"$i\"\n  printf 'stderr:%03d:acceptance\\n' \"$i\" >&2\n  i=$((i + 1))\n  sleep 0.015\ndone\ntouch '",
    );
    script.append(root);
    script.append("/prelude.done'\nwhile [ ! -e '");
    script.append(root);
    script.append("/finish.gate' ]; do sleep 0.02; done\nwhile [ \"$i\" -lt ");
    script.append(decimal_text((counts.0 + counts.1) as u64).as_str());
    script.append(
        " ]; do\n  printf 'stdout:%03d:acceptance\\n' \"$i\"\n  printf 'stderr:%03d:acceptance\\n' \"$i\" >&2\n  i=$((i + 1))\n  sleep 0.015\ndone\ntouch '",
    );
    script.append(root);
    script.append("/workload.complete'\nexit ");
    script.append(decimal_text(WORKLOAD_EXIT as u64).as_str());
    script.append("\n");
    script
}

/// The position that a position file holds. A file that is not there stands for
/// the start; text that is no number holds no position.
pub open spec fn recorded_position(content: Option<Seq<char>>) -> Option<u64> {
    match content {
        None => Some(0),
        Some(line) => {
            let digits = text::unsigned_digits(text::trim(line));
            if text::is_number(digits) && text::number(digits) <= u64::MAX {
                Some(text::number(digits) as u64)
            } else {
                None
            }
        },
    }
}

/// The content of a position file.
pub open spec fn position_line(position: u64) -> Seq<char> {
    text::decimal(position as nat).push('\n')
}

/// Reads a position file.
pub fn read_position(content: Option<&str>) -> (r: Option<u64>)
    ensures
        r == recorded_position(
            match content {
                Some(line) => Some(line@),
                None => None,
            },
        ),
{
    match content {
        None => Some(0),
        Some(line) => parse_unsigned(trimmed(line)),
    }
}

/// Writes a position file.
pub fn write_position(position: u64) -> (r: String)
    ensures
        r@ == position_line(position),
{
    proof {
        reveal_strlit("\n");
    }
    let line = join(decimal_text(position).as_str(), "\n");
    assert(line@ =~= position_line(position));
    line
}

/// A position file that was written holds the position that was written.
pub proof fn positions_read_back(position: u64)
    ensures
        recorded_position(Some(position_line(position))) == Some(position),
{
    let digits = text::decimal(position as nat);
    text::decimal_round_trip(position as nat);
    text::trimmed_number(digits);
    assert(text::is_digit(digits[0]));
}

/// Two contents that should be the same and are not.
#[derive(Clone, Copy, Debug, PartialEq, Eq, Structural)]
pub struct Mismatch {
    pub expected: usize,
    pub actual: usize,
}

impl Mismatch {
    /// The diagnostic for the mismatch of `label`.
    pub open spec fn text(self, label: Seq<char>) -> Seq<char> {
        label + " mismatch: expected "@ + text::decimal(self.expected as nat) + " bytes, got "@
            + text::decimal(self.actual as nat) + " bytes"@
    }

    pub fn message(&self, label: &str) -> (r: String)
        ensures
            r@ == self.text(label@),
    {
        let mut r = label.to_owned();
        r.append(" mismatch: expected ");
        r.append(decimal_text(self.expected as u64).as_str());
        r.append(" bytes, got ");
        r.append(decimal_text(self.actual as u64).as_str());
        r.append(" bytes");
        r
    }
}

/// Accepts content only if it is what was expected, byte for byte.
pub fn check_content(actual: &[u8], expected: &[u8]) -> (r: Result<(), Mismatch>)
    ensures
        r == if actual@ == expected@ {
            Ok::<(), Mismatch>(())
        } else {
            Err((Mismatch { expected: expected@.len() as usize, actual: actual@.len() as usize }))
        },
{
    if bytes_equal(actual, expected) {
        Ok(())
    } else {
        Err(Mismatch { expected: expected.len(), actual: actual.len() })
    }
}

/// What is wrong with how often the command was launched.
#[derive(Clone, Copy, Debug, PartialEq, Eq, Structural)]
pub enum LaunchFault {
    Never,
    Twice,
}

impl LaunchFault {
    pub open spec fn text(self) -> Seq<char> {
        match self {
            LaunchFault::Never => "workload launch marker was not created"@,
            LaunchFault::Twice => "workload launched more than once"@,
        }
    }

    pub fn message(&self) -> (r: String)
        ensures
            r@ == self.text(),
    {
        match self {
            LaunchFault::Never => "workload launch marker was not created".to_owned(),
            LaunchFault::Twice => "workload launched more than once".to_owned(),
        }
    }
}

/// Accepts the markers only of a command that was launched exactly once.
pub fn check_launch(launched: bool, repeated: bool) -> (r: Result<(), LaunchFault>)
    ensures
        r == if !launched {
            Err::<(), LaunchFault>(LaunchFault::Never)
        } else if repeated {
            Err(LaunchFault::Twice)
        } else {
            Ok(())
        },
{
    if !launched {
        Err(LaunchFault::Never)
    } else if repeated {
        Err(LaunchFault::Twice)
    } else {
        Ok(())
    }
}

/// The sessions that an abandoned trial still has to cancel.
#[derive(Clone, Debug)]
pub struct Cleanup {
    pub sessions: Vec<String>,
    pub active: bool,
}

impl Cleanup {
    /// What is to be cancelled if the trial ends now.
    pub open spec fn pending(self) -> Seq<Seq<char>> {
        if self.active {
            text::texts(self.sessions@)
        } else {
            Seq::empty()
        }
    }

    pub fn new() -> (r: Cleanup)
        ensures
            r.active,
            r.pending() == Seq::<Seq<char>>::empty(),
    {
        let r = Cleanup { sessions: Vec::new(), active: true };
        assert(text::texts(r.sessions@) =~= Seq::<Seq<char>>::empty());
        r
    }

    /// Adds a session.
    pub fn track(&mut self, id: String)
        ensures
            final(self).active == old(self).active,
            text::texts(final(self).sessions@) == text::texts(old(self).sessions@).push(id@),
    {
        let ghost before = text::texts(self.sessions@);
        self.sessions.push(id);
        assert(text::texts(self.sessions@) =~= before.push(id@));
    }

    /// Leaves everything as it is: the trial succeeded.
    pub fn disarm(&mut self)
        ensures
            !final(self).active,
            final(self).sessions == old(self).sessions,
    {
        self.active = false;
    }

    /// Lists the sessions to cancel, in the order in which they were added.
    pub fn to_cancel(&self) -> (r: Vec<String>)
        ensures
            text::texts(r@) == self.pending(),
    {
        if self.active {
            let r = text::strings_from(self.sessions.as_slice(), 0);
            assert(text::texts(self.sessions@).skip(0) =~= text::texts(self.sessions@));
            r
        } else {
            let r: Vec<String> = Vec::new();
            assert(text::texts(r@) =~= Seq::<Seq<char>>::empty());
            r
        }
    }
}

impl Default for Cleanup {
    fn default() -> (r: Self)
        ensures
            r.active,
            r.pending() == Seq::<Seq<char>>::empty(),
    {
        Cleanup::new()
    }
}

/// Where the header of an output ends, if it has one: at its first newline.
pub fn header_end(output: &[u8]) -> (r: Option<usize>)
    ensures
        match r {
            Some(end) => {
                &&& end < output@.len()
                &&& output@[end as int] == 10
                &&& forall|i: int| 0 <= i < end ==> output@[i] != 10
            },
            None => forall|i: int| 0 <= i < output@.len() ==> output@[i] != 10,
        },
        r is None ==> crate::protocol::no_newline(output@),
{
    let mut index: usize = 0;
    while index < output.len()
        invariant
            index <= output@.len(),
            forall|i: int| 0 <= i < index ==> output@[i] != 10,
        decreases output@.len() - index,
    {
        if output[index] == 10 {
            return Some(index);
        }
        index += 1;
    }
    None
}

/// What is wrong with a position in a header.
#[derive(Clone, Copy, Debug, PartialEq, Eq, Structural)]
pub enum PositionFault {
    Missing,
    Differs { expected: u64, actual: u64 },
}

impl PositionFault {
    /// The diagnostic for the position `key` of `object`.
    pub open spec fn text(self, key: Seq<char>, object: Seq<char>) -> Seq<char> {
        match self {
            PositionFault::Missing => "missing integer field "@ + text::debug_text(key) + " in "@
                + object,
            PositionFault::Differs { expected, actual } => "expected "@ + key + " offset "@
                + text::decimal(expected as nat) + ", got "@ + text::decimal(actual as nat),
        }
    }

    pub fn message(&self, key: &str, object: &str) -> (r: String)
        ensures
            r@ == self.text(key@, object@),
    {
        match self {
            PositionFault::Missing => {
                let mut r = join3("missing integer field ", quoted(key).as_str(), " in ");
                r.append(object);
                r
            },
            PositionFault::Differs { expected, actual } => {
                let mut r = join3("expected ", key, " offset ");
                r.append(decimal_text(*expected).as_str());
                r.append(", got ");
                r.append(decimal_text(*actual).as_str());
                r
            },
        }
    }
}

/// What is wrong with a position of which `found` was found.
pub open spec fn position_fault(found: JsonView, expected: u64) -> Option<PositionFault> {
    match found.unsigned() {
        None => Some(PositionFault::Missing),
        Some(actual) => if actual == expected {
            None
        } else {
            Some(PositionFault::Differs { expected, actual })
        },
    }
}

/// Accepts a position only if it is there and is the expected one.
pub fn check_position(found: &JsonAt, expected: u64) -> (r: Result<(), PositionFault>)
    ensures
        match position_fault(found@, expected) {
            None => r is Ok,
            Some(fault) => r == Err::<(), PositionFault>(fault),
        },
{
    match found.unsigned() {
        None => Err(PositionFault::Missing),
        Some(actual) => {
            if actual == expected {
                Ok(())
            } else {
                Err(PositionFault::Differs { expected, actual })
            }
        },
    }
}

/// What is wrong with the header of an attachment.
#[derive(Clone, Debug)]
pub enum HeaderFault {
    /// It is not JSON.
    Invalid,
    /// It reports an error.
    Refused(String),
    /// It has no positions.
    NoOffsets,
    Stdout(PositionFault),
    Stderr(PositionFault),
}

/// What is wrong with the header of an attachment.
pub enum HeaderFaultView {
    Invalid,
    Refused(Seq<char>),
    NoOffsets,
    Stdout(PositionFault),
    Stderr(PositionFault),
}

impl View for HeaderFault {
    type V = HeaderFaultView;

    open spec fn view(&self) -> HeaderFaultView {
        match *self {
            HeaderFault::Invalid => HeaderFaultView::Invalid,
            HeaderFault::Refused(error) => HeaderFaultView::Refused(error@),
            HeaderFault::NoOffsets => HeaderFaultView::NoOffsets,
            HeaderFault::Stdout(fault) => HeaderFaultView::Stdout(fault),
            HeaderFault::Stderr(fault) => HeaderFaultView::Stderr(fault),
        }
    }
}

/// What is wrong with a header whose members were found to be these.
pub open spec fn header_fault(
    error: JsonView,
    offsets: JsonView,
    stdout: JsonView,
    stderr: JsonView,
    expected: (u64, u64),
) -> Option<HeaderFaultView> {
    if error is Invalid {
        Some(HeaderFaultView::Invalid)
    } else if error is Text {
        Some(HeaderFaultView::Refused(error->Text_0))
    } else if offsets is Missing {
        Some(HeaderFaultView::NoOffsets)
    } else if position_fault(stdout, expected.0) is Some {
        Some(HeaderFaultView::Stdout(position_fault(stdout, expected.0)->0))
    } else if position_fault(stderr, expected.1) is Some {
        Some(HeaderFaultView::Stderr(position_fault(stderr, expected.1)->0))
    } else {
        None
    }
}

/// Accepts what was found in a header only if it reports no error and resumes
/// both streams where they were left.
pub fn check_header_found(
    error: JsonAt,
    offsets: &JsonAt,
    stdout: &JsonAt,
    stderr: &JsonAt,
    expected: (u64, u64),
) -> (r: Result<(), HeaderFault>)
    ensures
        match header_fault(error@, offsets@, stdout@, stderr@, expected) {
            None => r is Ok,
            Some(fault) => r matches Err(found) && found@ == fault,
        },
{
    match error {
        JsonAt::Invalid => {
            return Err(HeaderFault::Invalid);
        },
        JsonAt::Text(error) => {
            return Err(HeaderFault::Refused(error));
        },
        _ => {},
    }
    if let JsonAt::Missing = offsets {
        return Err(HeaderFault::NoOffsets);
    }
    if let Err(fault) = check_position(stdout, expected.0) {
        return Err(HeaderFault::Stdout(fault));
    }
    if let Err(fault) = check_position(stderr, expected.1) {
        return Err(HeaderFault::Stderr(fault));
    }
    Ok(())
}

/// Accepts the header line of an attachment.
pub fn check_header(line: &[u8], expected: (u64, u64)) -> (r: Result<(), HeaderFault>)
    ensures
        match header_fault(
            json::json_lookup(line@, "/error"@),
            json::json_lookup(line@, "/offsets"@),
            json::json_lookup(line@, "/offsets/stdout"@),
            json::json_lookup(line@, "/offsets/stderr"@),
            expected,
        ) {
            None => r is Ok,
            Some(fault) => r matches Err(found) && found@ == fault,
        },
{
    check_header_found(
        json_at(line, "/error"),
        &json_at(line, "/offsets"),
        &json_at(line, "/offsets/stdout"),
        &json_at(line, "/offsets/stderr"),
        expected,
    )
}

/// What is wrong with the answer of an attachment that should have failed, or
/// should not have.
#[derive(Clone, Debug)]
pub enum AnswerFault {
    /// It ended otherwise than it should have.
    Status,
    /// It wrote no header.
    NoHeader,
    /// Its header is not JSON.
    Invalid,
    /// It reports no error.
    NoError,
    /// It reports an error that was not expected.
    OtherError(String),
}

/// What is wrong with an answer.
pub enum AnswerFaultView {
    Status,
    NoHeader,
    Invalid,
    NoError,
    OtherError(Seq<char>),
}

impl View for AnswerFault {
    type V = AnswerFaultView;

    open spec fn view(&self) -> AnswerFaultView {
        match *self {
            AnswerFault::Status => AnswerFaultView::Status,
            AnswerFault::NoHeader => AnswerFaultView::NoHeader,
            AnswerFault::Invalid => AnswerFaultView::Invalid,
            AnswerFault::NoError => AnswerFaultView::NoError,
            AnswerFault::OtherError(error) => AnswerFaultView::OtherError(error@),
        }
    }
}

/// What is wrong with an answer that should be a success. `error` is what was
/// found at the error of its header, if it has one.
pub open spec fn success_fault(success: bool, error: Option<JsonView>) -> Option<AnswerFaultView> {
    if !success {
        Some(AnswerFaultView::Status)
    } else {
        match error {
            None => Some(AnswerFaultView::NoHeader),
            Some(JsonView::Invalid) => Some(AnswerFaultView::Invalid),
            Some(JsonView::Text(error)) => Some(AnswerFaultView::OtherError(error)),
            Some(_) => None,
        }
    }
}

/// What is wrong with an answer that should be an error with `expected` in it.
pub open spec fn error_fault(
    success: bool,
    error: Option<JsonView>,
    expected: Seq<char>,
) -> Option<AnswerFaultView> {
    if success {
        Some(AnswerFaultView::Status)
    } else {
        match error {
            None => Some(AnswerFaultView::NoHeader),
            Some(JsonView::Invalid) => Some(AnswerFaultView::Invalid),
            Some(JsonView::Text(error)) => if text::occurs(error, expected) {
                None
            } else {
                Some(AnswerFaultView::OtherError(error))
            },
            Some(_) => Some(AnswerFaultView::NoError),
        }
    }
}

/// The view of what may have been found.
pub open spec fn found_view(found: Option<JsonAt>) -> Option<JsonView> {
    match found {
        Some(found) => Some(found@),
        None => None,
    }
}

/// What is found at the error of the header of `output`, if it has a header.
pub open spec fn header_error(output: Seq<u8>) -> Option<JsonView> {
    let end = output.index_of_first(10u8);
    match end {
        Some(end) => Some(json::json_lookup(output.take(end), "/error"@)),
        None => None,
    }
}

/// Looks for the error of the header of `output`.
pub fn find_error(output: &[u8]) -> (r: Option<JsonAt>)
    ensures
        found_view(r) == header_error(output@),
{
    proof {
        output@.index_of_first_ensures(10u8);
    }
    match header_end(output) {
        Some(end) => {
            assert(output@.contains(output@[end as int]));
            let header = text::bytes_range(output, 0, end);
            assert(header@ =~= output@.take(end as int));
            Some(json_at(header.as_slice(), "/error"))
        },
        None => None,
    }
}

/// Accepts only a success without an error.
pub fn expect_success(success: bool, error: Option<JsonAt>) -> (r: Result<(), AnswerFault>)
    ensures
        match success_fault(success, found_view(error)) {
            None => r is Ok,
            Some(fault) => r matches Err(found) && found@ == fault,
        },
{
    if !success {
        return Err(AnswerFault::Status);
    }
    match error {
        None => Err(AnswerFault::NoHeader),
        Some(JsonAt::Invalid) => Err(AnswerFault::Invalid),
        Some(JsonAt::Text(error)) => Err(AnswerFault::OtherError(error)),
        Some(_) => Ok(()),
    }
}

/// Accepts only an error with `expected` in it.
pub fn expect_error(success: bool, error: Option<JsonAt>, expected: &str) -> (r: Result<
    (),
    AnswerFault,
>)
    ensures
        match error_fault(success, found_view(error), expected@) {
            None => r is Ok,
            Some(fault) => r matches Err(found) && found@ == fault,
        },
{
    if success {
        return Err(AnswerFault::Status);
    }
    match error {
        None => Err(AnswerFault::NoHeader),
        Some(JsonAt::Invalid) => Err(AnswerFault::Invalid),
        Some(JsonAt::Text(error)) => {
            if str_contains(error.as_str(), expected) {
                Ok(())
            } else {
                Err(AnswerFault::OtherError(error))
            }
        },
        Some(_) => Err(AnswerFault::NoError),
    }
}

/// What is wrong with the reply to a cancellation.
#[derive(Clone, Copy, Debug, PartialEq, Eq, Structural)]
pub enum CancelFault {
    /// It is not one line.
    Lines,
    /// The line is not JSON.
    Invalid,
    /// The cancellation did not win.
    Outcome,
    /// The command was not killed.
    Signal,
    /// The process did not exit as a killed command does.
    Status,
}

/// What is wrong with a reply to a cancellation of which these were found.
pub open spec fn cancel_fault(
    lines: nat,
    outcome: JsonView,
    signal: JsonView,
    code: Option<i32>,
) -> Option<CancelFault> {
    if lines != 1 {
        Some(CancelFault::Lines)
    } else if outcome is Invalid {
        Some(CancelFault::Invalid)
    } else if outcome != JsonView::Text("cancel_won"@) {
        Some(CancelFault::Outcome)
    } else if signal.signed() != Some(9i64) {
        Some(CancelFault::Signal)
    } else if code != Some(137i32) {
        Some(CancelFault::Status)
    } else {
        None
    }
}

/// Accepts what was found in the reply to a cancellation only if the command
/// was killed by it.
pub fn check_cancel_found(
    lines: usize,
    outcome: &JsonAt,
    signal: &JsonAt,
    code: Option<i32>,
) -> (r: Result<(), CancelFault>)
    ensures
        match cancel_fault(lines as nat, outcome@, signal@, code) {
            None => r is Ok,
            Some(fault) => r == Err::<(), CancelFault>(fault),
        },
{
    if lines != 1 {
        return Err(CancelFault::Lines);
    }
    match outcome {
        JsonAt::Invalid => {
            return Err(CancelFault::Invalid);
        },
        JsonAt::Text(word) => {
            if !text::str_equal(word.as_str(), "cancel_won") {
                return Err(CancelFault::Outcome);
            }
        },
        _ => {
            return Err(CancelFault::Outcome);
        },
    }
    if signal.signed() != Some(9i64) {
        return Err(CancelFault::Signal);
    }
    if code != Some(137i32) {
        return Err(CancelFault::Status);
    }
    Ok(())
}

/// Accepts the reply to a cancellation. `lines` are the lines of the reply.
pub fn check_cancel(lines: &Vec<Vec<u8>>, code: Option<i32>) -> (r: Result<(), CancelFault>)
    ensures
        ({
            let line = if lines@.len() == 1 {
                lines@[0]@
            } else {
                Seq::empty()
            };
            match cancel_fault(
                lines@.len(),
                json::json_lookup(line, "/outcome"@),
                json::json_lookup(line, "/exit/signal"@),
                code,
            ) {
                None => r is Ok,
                Some(fault) => r == Err::<(), CancelFault>(fault),
            }
        }),
{
    if lines.len() != 1 {
        return Err(CancelFault::Lines);
    }
    check_cancel_found(
        1,
        &json_at(lines[0].as_slice(), "/outcome"),
        &json_at(lines[0].as_slice(), "/exit/signal"),
        code,
    )
}

/// A stream is the lines before the barrier and those behind it, and each further
/// line is its name, its number with at least three digits, and its mark.
pub proof fn streams_grow_line_by_line(
    name: &str,
    counts: (usize, usize),
    more: (usize, usize),
    r: String,
    s: String,
)
    requires
        counts.0 + counts.1 < usize::MAX,
        more.0 + more.1 == counts.0 + counts.1 + 1,
        call_ensures(expected_stream, (name, counts), r),
        call_ensures(expected_stream, (name, more), s),
    ensures
        ({
            let number = text::decimal((counts.0 + counts.1) as nat);
            let zeros = if number.len() == 1 {
                "00"@
            } else if number.len() == 2 {
                "0"@
            } else {
                Seq::empty()
            };
            s@ == r@ + (name@ + ":"@ + (zeros + number) + ":acceptance\n"@)
        }),
        counts.0 + counts.1 == 0 ==> r@.len() == 0,
{
    let n = (counts.0 + counts.1) as nat;
    reveal_with_fuel(text::decimal, 3);
    if n >= 100 {
        assert(text::decimal(n).len() >= 3) by {
            assert(text::decimal(n / 10).len() >= 2);
        }
        assert(Seq::<char>::empty() + text::decimal(n) =~= text::decimal(n));
    }
}

/// A position that was written down is read back, a position file that is not there
/// stands for the beginning, and white space around a number does not matter.
pub proof fn written_positions_are_read_back(
    position: u64,
    line: String,
    content: &str,
    r: Option<u64>,
    none: Option<u64>,
)
    requires
        call_ensures(write_position, (position,), line),
        content@ == line@,
        call_ensures(read_position, (Some(content),), r),
        call_ensures(read_position, (None::<&str>,), none),
    ensures
        r == Some(position),
        none == Some(0u64),
        line@.len() > 0 && line@.last() == '\n',
{
    positions_read_back(position);
}

/// Content passes exactly if it is the expected one in every byte.
pub proof fn contents_pass_only_byte_for_byte(
    actual: &[u8],
    expected: &[u8],
    r: Result<(), Mismatch>,
)
    requires
        actual@.len() <= usize::MAX,
        expected@.len() <= usize::MAX,
        call_ensures(check_content, (actual, expected), r),
    ensures
        r is Ok <==> actual@.len() == expected@.len() && forall|i: int|
            0 <= i < actual@.len() ==> #[trigger] actual@[i] == expected@[i],
        r matches Err(fault) ==> fault.expected == expected@.len() && fault.actual
            == actual@.len(),
{
    if actual@.len() == expected@.len() && forall|i: int|
        0 <= i < actual@.len() ==> #[trigger] actual@[i] == expected@[i] {
        assert(actual@ =~= expected@);
    }
}

/// A command passes exactly if it was launched, and once.
pub proof fn launches_pass_only_once(launched: bool, repeated: bool, r: Result<(), LaunchFault>)
    requires
        call_ensures(check_launch, (launched, repeated), r),
    ensures
        r is Ok <==> launched && !repeated,
        r is Err ==> (r->Err_0 is Never <==> !launched),
{
}

/// A trial that did not succeed cancels every session that it added, in order, and
/// one that did cancels none.
pub proof fn abandoned_trials_cancel_their_sessions(
    cleanup: Cleanup,
    r: Vec<String>,
)
    requires
        call_ensures(Cleanup::to_cancel, (&cleanup,), r),
    ensures
        !cleanup.active ==> r@.len() == 0,
        cleanup.active ==> r@.len() == cleanup.sessions@.len() && forall|i: int|
            0 <= i < r@.len() ==> (#[trigger] r@[i])@ == cleanup.sessions@[i]@,
{
    let told = text::texts(r@);
    assert(told.len() == r@.len());
    assert forall|i: int| 0 <= i < r@.len() implies (#[trigger] r@[i])@ == told[i] by {}
}

/// A session that is added comes last; nothing else changes.
pub proof fn added_sessions_come_last(cleanup: &mut Cleanup, id: String)
    requires
        call_ensures(Cleanup::track, (cleanup, id), ()),
    ensures
        final(cleanup).active == old(cleanup).active,
        text::texts(final(cleanup).sessions@) == text::texts(old(cleanup).sessions@) + seq![id@],
{
    assert(text::texts(old(cleanup).sessions@).push(id@) =~= text::texts(old(cleanup).sessions@)
        + seq![id@]);
}

/// A position passes exactly if it is a number and the expected one.
pub proof fn positions_pass_only_as_expected(
    found: JsonAt,
    expected: u64,
    r: Result<(), PositionFault>,
)
    requires
        call_ensures(check_position, (&found, expected), r),
    ensures
        r is Ok <==> (found matches JsonAt::Number { unsigned, .. } && unsigned == Some(expected)),
        r is Err && (found matches JsonAt::Number { unsigned, .. } && unsigned is Some)
            ==> r->Err_0 is Differs,
        r is Err && !(found matches JsonAt::Number { unsigned, .. } && unsigned is Some)
            ==> r->Err_0 is Missing,
{
}

/// A header passes exactly if it is JSON, reports no error, and resumes both streams
/// where they were left.
pub proof fn headers_pass_only_at_both_positions(
    error: JsonAt,
    offsets: JsonAt,
    stdout: JsonAt,
    stderr: JsonAt,
    expected: (u64, u64),
    r: Result<(), HeaderFault>,
)
    requires
        call_ensures(check_header_found, (error, &offsets, &stdout, &stderr, expected), r),
    ensures
        r is Ok <==> !(error is Invalid) && !(error is Text) && !(offsets is Missing) && (
        stdout matches JsonAt::Number { unsigned, .. } && unsigned == Some(expected.0)) && (
        stderr matches JsonAt::Number { unsigned, .. } && unsigned == Some(expected.1)),
        error matches JsonAt::Text(text) ==> (r matches Err(HeaderFault::Refused(told)) && told@
            == text@),
        error is Invalid ==> r is Err && r->Err_0 is Invalid,
{
    assert(match header_fault(error@, offsets@, stdout@, stderr@, expected) {
        None => r is Ok,
        Some(fault) => r matches Err(found) && found@ == fault,
    });
}

/// A success passes only without an error in its header.
pub proof fn successes_pass_without_error(
    success: bool,
    error: Option<JsonAt>,
    r: Result<(), AnswerFault>,
)
    requires
        call_ensures(expect_success, (success, error), r),
    ensures
        r is Ok <==> success && error is Some && !(error->0 is Invalid) && !(error->0 is Text),
        r is Err && !success ==> r->Err_0 is Status,
{
}

/// An expected failure passes only with an error that holds the expected words.
pub proof fn failures_pass_with_their_words(
    success: bool,
    error: Option<JsonAt>,
    expected: &str,
    r: Result<(), AnswerFault>,
)
    requires
        call_ensures(expect_error, (success, error, expected), r),
    ensures
        r is Ok ==> !success && (error matches Some(JsonAt::Text(text)) && text::occurs(
            text@,
            expected@,
        )),
        !success && (error matches Some(JsonAt::Text(text)) && text::occurs(text@, expected@))
            ==> r is Ok,
        success ==> r is Err && r->Err_0 is Status,
{
}

/// A cancellation passes exactly if its one line says that it won, that the command
/// was killed, and the process ended as a killed command does.
pub proof fn cancellations_pass_only_if_they_killed(
    lines: usize,
    outcome: JsonAt,
    signal: JsonAt,
    code: Option<i32>,
    r: Result<(), CancelFault>,
)
    requires
        call_ensures(check_cancel_found, (lines, &outcome, &signal, code), r),
    ensures
        r is Ok <==> lines == 1 && (outcome matches JsonAt::Text(word) && word@ == "cancel_won"@)
            && (signal matches JsonAt::Number { signed, .. } && signed == Some(9i64)) && code
            == Some(137i32),
{
}

/// A header ends at the first newline of an output.
pub proof fn headers_end_at_the_newline(output: &[u8], at: int, r: Option<usize>)
    requires
        0 <= at < output@.len(),
        output@[at] == 10,
        forall|i: int| 0 <= i < at ==> #[trigger] output@[i] != 10,
        call_ensures(header_end, (output,), r),
    ensures
        r is Some,
        r->0 == at,
{
    match r {
        None => {
            assert(crate::protocol::no_newline(output@));
            assert(output@[at] != 10);
        },
        Some(end) => {
            assert(output@[end as int] == 10);
            if at < end {
                assert(output@[at] != 10);
            }
        },
    }
}

/// A header line passes exactly if no error stands in it and both streams resume
/// where they were left.
pub proof fn header_lines_are_read_at_their_members(
    line: &[u8],
    expected: (u64, u64),
    r: Result<(), HeaderFault>,
)
    requires
        call_ensures(check_header, (line, expected), r),
    ensures
        ({
            let error = json::json_lookup(line@, "/error"@);
            r is Ok <==> !(error is Invalid) && !(error is Text) && !(json::json_lookup(
                line@,
                "/offsets"@,
            ) is Missing) && json::json_lookup(line@, "/offsets/stdout"@).unsigned() == Some(
                expected.0,
            ) && json::json_lookup(line@, "/offsets/stderr"@).unsigned() == Some(expected.1)
        }),
{
}

/// A trial that succeeded cancels nothing from then on.
pub proof fn successful_trials_cancel_nothing(cleanup: &mut Cleanup)
    requires
        call_ensures(Cleanup::disarm, (cleanup,), ()),
    ensures
        !final(cleanup).active,
        final(cleanup).sessions == old(cleanup).sessions,
{
}

/// Diagnostics show both of what was expected and what was found.
pub proof fn differences_are_shown(
    mismatch: Mismatch,
    position: PositionFault,
    launch: LaunchFault,
    label: &str,
    object: &str,
    r: String,
    s: String,
    t: String,
)
    requires
        call_ensures(Mismatch::message, (&mismatch, label), r),
        call_ensures(PositionFault::message, (&position, label, object), s),
        call_ensures(LaunchFault::message, (&launch,), t),
    ensures
        r@ == label@ + " mismatch: expected "@ + text::decimal(mismatch.expected as nat)
            + " bytes, got "@ + text::decimal(mismatch.actual as nat) + " bytes"@,
        position matches PositionFault::Differs { expected, actual } ==> s@ == "expected "@ + label@
            + " offset "@ + text::decimal(expected as nat) + ", got "@ + text::decimal(
            actual as nat,
        ),
        position is Missing ==> s@ == "missing integer field "@ + text::debug_text(label@)
            + " in "@ + object@,
        launch is Never ==> t@ == "workload launch marker was not created"@,
        launch is Twice ==> t@ == "workload launched more than once"@,
{
}

/// Cleaning up begins with nothing, and then cancels what was added, in order.
pub proof fn tracked_sessions_are_cancelled(
    cleanup: &mut Cleanup,
    start: Cleanup,
    id: String,
    r: Vec<String>,
    s: Vec<String>,
)
    requires
        call_ensures(Cleanup::new, (), start),
        *old(cleanup) == start,
        call_ensures(Cleanup::track, (cleanup, id), ()),
        call_ensures(Cleanup::to_cancel, (&start,), r),
        call_ensures(Cleanup::to_cancel, (&*final(cleanup),), s),
    ensures
        start.active,
        r@.len() == 0,
        s@.len() == 1,
        s@[0]@ == id@,
{
    assert(text::texts(r@).len() == r@.len());
    assert(text::texts(s@).len() == s@.len());
    assert(text::texts(start.sessions@).push(id@) =~= seq![id@]);
    assert(text::texts(s@)[0] == s@[0]@);
}

/// The error of a header is looked for in its first line, and only there.
pub proof fn errors_are_found_in_the_header(
    header: Seq<u8>,
    rest: Seq<u8>,
    output: &[u8],
    unfinished: &[u8],
    r: Option<JsonAt>,
    s: Option<JsonAt>,
)
    requires
        crate::protocol::no_newline(header),
        output@ == header + seq![10u8] + rest,
        unfinished@ == header,
        call_ensures(find_error, (output,), r),
        call_ensures(find_error, (unfinished,), s),
    ensures
        r matches Some(found) && found@ == json::json_lookup(header, "/error"@),
        s is None,
{
    output@.index_of_first_ensures(10u8);
    unfinished@.index_of_first_ensures(10u8);
    assert(output@[header.len() as int] == 10);
    assert(output@.contains(10u8));
    let end = output@.index_of_first(10u8)->0;
    if end < header.len() {
        assert(output@[end] == header[end]);
    }
    assert(output@.take(header.len() as int) =~= header);
}

/// A cancellation counts only if one line came back that says that it won and that
/// the command was killed, and the process exited as a killed command does.
pub proof fn cancellations_must_win(
    lines: Vec<Vec<u8>>,
    code: Option<i32>,
    r: Result<(), CancelFault>,
)
    requires
        call_ensures(check_cancel, (&lines, code), r),
    ensures
        ({
            let outcome = json::json_lookup(lines@[0]@, "/outcome"@);
            let signal = json::json_lookup(lines@[0]@, "/exit/signal"@);
            &&& r is Ok <==> lines@.len() == 1 && outcome == JsonView::Text("cancel_won"@)
                && signal.signed() == Some(9i64) && code == Some(137i32)
            &&& lines@.len() != 1 <==> r == Err::<(), CancelFault>(CancelFault::Lines)
            &&& lines@.len() == 1 && outcome is Invalid ==> r == Err::<(), CancelFault>(
                CancelFault::Invalid,
            )
        }),
{
}

/// The program of the output trial works in its directory: it launches once, writes
/// the lines before and those behind the barrier, and ends with its own code.
pub proof fn programs_work_in_their_directory(
    root: &str,
    counts: (usize, usize),
    r: String,
)
    requires
        counts.0 + counts.1 <= usize::MAX,
        call_ensures(workload_script, (root, counts), r),
    ensures
        text::occurs(
            r@,
            "if ! mkdir '"@ + root@ + "/launch.once' 2>/dev/null; then\n  echo duplicate >> '"@
                + root@ + "/duplicate-launch'\n  exit 97\nfi\necho \"$$\" > '"@ + root@
                + "/workload.pid'\ni=0\nwhile [ \"$i\" -lt "@ + text::decimal(counts.0 as nat),
        ),
        text::occurs(
            r@,
            "/finish.gate' ]; do sleep 0.02; done\nwhile [ \"$i\" -lt "@ + text::decimal(
                (counts.0 + counts.1) as nat,
            ),
        ),
        text::occurs(r@, root@ + "/workload.complete'\nexit "@ + text::decimal(WORKLOAD_EXIT as nat)),
{
    let first = "if ! mkdir '"@ + root@
        + "/launch.once' 2>/dev/null; then\n  echo duplicate >> '"@ + root@
        + "/duplicate-launch'\n  exit 97\nfi\necho \"$$\" > '"@ + root@
        + "/workload.pid'\ni=0\nwhile [ \"$i\" -lt "@ + text::decimal(counts.0 as nat);
    let start: int = 0;
    assert(r@.subrange(start, start + first.len()) =~= first);
    assert(text::occurs(r@, first));
    let last = root@ + "/workload.complete'\nexit "@ + text::decimal(WORKLOAD_EXIT as nat);
    let end = r@.len() - "\n"@.len();
    let at: int = end - last.len();
    assert(r@.subrange(at, at + last.len()) =~= last);
    assert(text::occurs(r@, last));
    let lines =
        " ]; do\n  printf 'stdout:%03d:acceptance\\n' \"$i\"\n  printf 'stderr:%03d:acceptance\\n' \"$i\" >&2\n  i=$((i + 1))\n  sleep 0.015\ndone\ntouch '"@;
    let second = "/finish.gate' ]; do sleep 0.02; done\nwhile [ \"$i\" -lt "@ + text::decimal(
        (counts.0 + counts.1) as nat,
    );
    let from: int = at - lines.len() - second.len();
    assert(r@.subrange(from, from + second.len()) =~= second);
    assert(text::occurs(r@, second));
}

} // verus!
