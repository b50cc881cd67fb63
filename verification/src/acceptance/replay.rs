//! The input of the input trial, and how its transports are cut.
use vstd::prelude::*;

use crate::acceptance::plan;
use crate::acceptance::plan::Lcg;
use crate::runtime;
use crate::runtime::sha256;
use crate::text;
use crate::text::{decimal_text, hex_text, join, join3};

verus! {

/// The exit code of the command of the input trial.
pub const STDIN_WORKLOAD_EXIT: i32 = 43;

pub const STDIN_RECORD_SIZE: usize = 64;

pub const STDIN_RECORDS: usize = 8192;

/// How many transports the trial cuts while the input is still being produced.
pub const TARGET_DEATHS: usize = 3;

/// A word whose bits are moved up by `count` places, round the end.
pub open spec fn rotated(word: u64, count: u64) -> u64 {
    if count == 0 {
        word
    } else {
        (word << count) | (word >> ((64 - count) as u64))
    }
}

/// The bits that fill a record behind its number.
pub open spec fn mixed(record: u64, within: u64) -> u64 {
    rotated(record.wrapping_mul(0x9e37_79b9_7f4a_7c15u64), within % 31) ^ within.wrapping_mul(
        0xd1b5_4a32_d192_ed03u64,
    )
}

/// The byte of the input at `index`: records that begin with a mark and the
/// record's number, lowest byte first.
pub open spec fn input_byte(index: nat) -> u8 {
    let record = (index / 64) as u64;
    let within = (index % 64) as u64;
    if within == 0 {
        80
    } else if within == 1 {
        75
    } else if within == 2 {
        73
    } else if within == 3 {
        78
    } else if within < 12 {
        (record >> (8 * (within - 4)) as u64 & 0xff) as u8
    } else {
        (mixed(record, within) >> (8 * (within % 8)) as u64 & 0xff) as u8
    }
}

/// The first `length` bytes of the input.
pub open spec fn input_bytes(length: nat) -> Seq<u8> {
    Seq::new(length, |index: int| input_byte(index as nat))
}

pub fn deterministic_stdin_byte(index: usize) -> (r: u8)
    ensures
        r == input_byte(index as nat),
{
    let record: u64 = (index / STDIN_RECORD_SIZE) as u64;
    let within: u64 = (index % STDIN_RECORD_SIZE) as u64;
    if within == 0 {
        80
    } else if within == 1 {
        75
    } else if within == 2 {
        73
    } else if within == 3 {
        78
    } else if within < 12 {
        let shift: u64 = 8 * (within - 4);
        (record >> shift & 0xff) as u8
    } else {
        let word: u64 = record.wrapping_mul(0x9e37_79b9_7f4a_7c15);
        let count: u64 = within % 31;
        let turned: u64 = if count == 0 {
            word
        } else {
            (word << count) | (word >> (64 - count))
        };
        let bits: u64 = turned ^ within.wrapping_mul(0xd1b5_4a32_d192_ed03);
        let shift: u64 = 8 * (within % 8);
        (bits >> shift & 0xff) as u8
    }
}

pub fn deterministic_stdin_input(length: usize) -> (r: Vec<u8>)
    ensures
        r@ == input_bytes(length as nat),
{
    let mut input: Vec<u8> = Vec::new();
    let mut index: usize = 0;
    while index < length
        invariant
            index <= length,
            input@ =~= input_bytes(index as nat),
        decreases length - index,
    {
        input.push(deterministic_stdin_byte(index));
        index += 1;
    }
    input
}

/// Whether `chunk` is what the input holds at `offset`.
pub open spec fn chunk_matches(chunk: Seq<u8>, offset: nat, length: nat) -> bool {
    &&& offset + chunk.len() <= length
    &&& chunk == input_bytes(length).subrange(offset as int, (offset + chunk.len()) as int)
}

/// Whether `chunk` is what the input of `length` bytes holds at `offset`.
pub fn raw_chunk_matches_input(chunk: &[u8], offset: u64, length: usize) -> (r: bool)
    ensures
        r == chunk_matches(chunk@, offset as nat, length as nat),
{
    if offset > length as u64 {
        return false;
    }
    let start: usize = offset as usize;
    if chunk.len() > length - start {
        return false;
    }
    let ghost expected = input_bytes(length as nat).subrange(
        offset as int,
        (offset + chunk@.len()) as int,
    );
    let mut index: usize = 0;
    while index < chunk.len()
        invariant
            index <= chunk@.len(),
            start == offset,
            start + chunk@.len() <= length,
            expected == input_bytes(length as nat).subrange(
                offset as int,
                (offset + chunk@.len()) as int,
            ),
            forall|i: int| 0 <= i < index ==> chunk@[i] == expected[i],
        decreases chunk@.len() - index,
    {
        if chunk[index] != deterministic_stdin_byte(start + index) {
            assert(chunk@[index as int] != expected[index as int]);
            return false;
        }
        index += 1;
    }
    assert(chunk@ =~= expected);
    true
}

/// The digest of `data`, in hexadecimal.
pub fn sha256_hex(data: &[u8]) -> (r: String)
    ensures
        r@ == text::hex(runtime::sha256_of(data@)),
{
    hex_text(sha256(data).as_slice())
}

/// What the command of the input trial reports of `length` bytes.
pub open spec fn report_line(prefix: Seq<char>, length: nat, digest: Seq<char>) -> Seq<char> {
    prefix + "len="@ + text::decimal(length) + " records="@ + text::decimal(length / 64)
        + " sha256="@ + digest + "\n"@
}

/// Writes what the command of the input trial reports.
pub fn report(prefix: &str, length: usize, digest: &str) -> (r: String)
    ensures
        r@ == report_line(prefix@, length as nat, digest@),
{
    let mut r = join3(prefix, "len=", decimal_text(length as u64).as_str());
    r.append(" records=");
    r.append(decimal_text((length / STDIN_RECORD_SIZE) as u64).as_str());
    r.append(" sha256=");
    r.append(digest);
    r.append("\n");
    r
}

/// What is wrong with the input that the command received.
#[derive(Clone, Copy, Debug, PartialEq, Eq, Structural)]
pub enum InputFault {
    /// It goes on behind its end.
    Beyond { at: usize },
    /// It differs from what was sent.
    Differs { at: usize },
    /// It ended too early.
    Short { accepted: usize, expected: usize },
}

impl InputFault {
    /// What the command says when it fails.
    pub open spec fn text(self) -> Seq<char> {
        match self {
            InputFault::Beyond { at } => "stdin workload received bytes beyond expected EOF at "@
                + text::decimal(at as nat),
            InputFault::Differs { at } => "stdin workload mismatch at accepted offset "@
                + text::decimal(at as nat),
            InputFault::Short { accepted, expected } => "stdin workload ended at "@
                + text::decimal(accepted as nat) + " bytes, expected "@ + text::decimal(
                expected as nat,
            ),
        }
    }

    /// What the command leaves behind when it fails.
    pub open spec fn trace(self) -> Seq<char> {
        match self {
            InputFault::Beyond { at } => "received bytes beyond expected EOF at "@ + text::decimal(
                at as nat,
            ) + "\n"@,
            InputFault::Differs { at } => "stdin mismatch at accepted offset "@ + text::decimal(
                at as nat,
            ) + "\n"@,
            InputFault::Short { accepted, expected } => "stdin ended at "@ + text::decimal(
                accepted as nat,
            ) + " bytes, expected "@ + text::decimal(expected as nat) + "\n"@,
        }
    }

    pub fn message(&self) -> (r: String)
        ensures
            r@ == self.text(),
    {
        match self {
            InputFault::Beyond { at } => join(
                "stdin workload received bytes beyond expected EOF at ",
                decimal_text(*at as u64).as_str(),
            ),
            InputFault::Differs { at } => join(
                "stdin workload mismatch at accepted offset ",
                decimal_text(*at as u64).as_str(),
            ),
            InputFault::Short { accepted, expected } => {
                let mut r = join3(
                    "stdin workload ended at ",
                    decimal_text(*accepted as u64).as_str(),
                    " bytes, expected ",
                );
                r.append(decimal_text(*expected as u64).as_str());
                r
            },
        }
    }

    pub fn record(&self) -> (r: String)
        ensures
            r@ == self.trace(),
    {
        match self {
            InputFault::Beyond { at } => join3(
                "received bytes beyond expected EOF at ",
                decimal_text(*at as u64).as_str(),
                "\n",
            ),
            InputFault::Differs { at } => join3(
                "stdin mismatch at accepted offset ",
                decimal_text(*at as u64).as_str(),
                "\n",
            ),
            InputFault::Short { accepted, expected } => {
                let mut r = join3(
                    "stdin ended at ",
                    decimal_text(*accepted as u64).as_str(),
                    " bytes, expected ",
                );
                r.append(decimal_text(*expected as u64).as_str());
                r.append("\n");
                r
            },
        }
    }
}

/// The command of the input trial: how much of the input it has accepted.
#[derive(Clone, Copy, Debug, PartialEq, Eq, Structural)]
pub struct WorkloadInput {
    pub accepted: usize,
    pub expected: usize,
}

impl WorkloadInput {
    pub open spec fn valid(self) -> bool {
        self.accepted <= self.expected
    }

    pub fn new(expected: usize) -> (r: WorkloadInput)
        ensures
            r == (WorkloadInput { accepted: 0, expected }),
            r.valid(),
    {
        WorkloadInput { accepted: 0, expected }
    }

    /// Takes the next bytes. They are accepted only if they continue the input
    /// where the accepted bytes end.
    pub fn accept(&mut self, chunk: &[u8]) -> (r: Result<(), InputFault>)
        requires
            old(self).valid(),
        ensures
            final(self).valid(),
            final(self).expected == old(self).expected,
            ({
                let at = old(self).accepted;
                if at + chunk@.len() > old(self).expected {
                    &&& r == Err::<(), InputFault>(InputFault::Beyond { at })
                    &&& final(self).accepted == at
                } else if !chunk_matches(chunk@, at as nat, old(self).expected as nat) {
                    &&& r == Err::<(), InputFault>(InputFault::Differs { at })
                    &&& final(self).accepted == at
                } else {
                    &&& r is Ok
                    &&& final(self).accepted == at + chunk@.len()
                }
            }),
    {
        let at: usize = self.accepted;
        if chunk.len() > self.expected - at {
            return Err(InputFault::Beyond { at });
        }
        if !raw_chunk_matches_input(chunk, at as u64, self.expected) {
            return Err(InputFault::Differs { at });
        }
        self.accepted = at + chunk.len();
        Ok(())
    }

    /// Takes the end of the input.
    pub fn finish(&self) -> (r: Result<(), InputFault>)
        ensures
            r == if self.accepted == self.expected {
                Ok::<(), InputFault>(())
            } else {
                Err(InputFault::Short { accepted: self.accepted, expected: self.expected })
            },
    {
        if self.accepted == self.expected {
            Ok(())
        } else {
            Err(InputFault::Short { accepted: self.accepted, expected: self.expected })
        }
    }
}

/// What was accepted chunk by chunk is the input, from its start: chunks that
/// match one after the other are together a prefix of the input.
pub proof fn accepted_chunks_are_a_prefix(accepted: Seq<u8>, chunk: Seq<u8>, length: nat)
    requires
        chunk_matches(accepted, 0, length),
        chunk_matches(chunk, accepted.len(), length),
    ensures
        chunk_matches(accepted + chunk, 0, length),
{
    let whole = accepted + chunk;
    let expected = input_bytes(length).subrange(0, whole.len() as int);
    assert forall|i: int| 0 <= i < whole.len() implies whole[i] == expected[i] by {
        if i < accepted.len() {
            assert(accepted[i] == input_bytes(length).subrange(0, accepted.len() as int)[i]);
        } else {
            let at = i - accepted.len();
            assert(chunk[at] == input_bytes(length).subrange(
                accepted.len() as int,
                (accepted.len() + chunk.len()) as int,
            )[at]);
        }
    }
    assert(whole =~= expected);
}

/// The prefix that is the whole input is the input.
pub proof fn complete_prefix_is_the_input(accepted: Seq<u8>, length: nat)
    requires
        chunk_matches(accepted, 0, length),
        accepted.len() == length,
    ensures
        accepted == input_bytes(length),
{
    assert(input_bytes(length).subrange(0, length as int) =~= input_bytes(length));
}

/// What the input trial does next.
#[derive(Clone, Copy, Debug, PartialEq, Eq, Structural)]
pub enum ReplayAction {
    /// Wait for a transport that carries data, other than the one named.
    AwaitTransport { previous: Option<u32> },
    /// Wait until the command has accepted a proper prefix of the input.
    AwaitProgress,
    /// Read how much of the input the command has accepted.
    ReadProgress,
    /// Wait for so many milliseconds.
    Sleep { millis: u64 },
    /// Look whether the producer has written everything and closed its end.
    LookAtProducer,
    /// Kill the transport.
    Kill { pid: u32 },
    /// Wait for the producer to finish.
    JoinProducer,
    /// Wait for the session to end and compare what arrived.
    Finish,
}

/// What came of what the input trial did.
#[derive(Clone, Copy, Debug, PartialEq, Eq, Structural)]
pub enum ReplayEvent {
    Transport { pid: u32 },
    Progress { accepted: u64 },
    Slept,
    Producer { done: bool },
    Killed,
    Joined,
}

/// Where the input trial stands.
#[derive(Clone, Copy, Debug, PartialEq, Eq, Structural)]
pub enum ReplayStage {
    First,
    FirstProgress,
    FirstKill { accepted: u64 },
    Again,
    Next,
    Delay { millis: u64 },
    Look,
    Prefix,
    Producer { accepted: u64 },
    Kill { accepted: u64, done: bool },
    Join,
    AfterEnd,
    LastTransport,
    LastDelay,
    LastLook,
    LastPrefix,
    LastKill { accepted: u64 },
    Done,
}

/// Why the input trial failed.
#[derive(Clone, Copy, Debug, PartialEq, Eq, Structural)]
pub enum ReplayFault {
    /// The accepted prefix is not one at which a transport may be cut.
    ImproperPrefix { pid: u32, accepted: u64, length: usize },
    /// No transport was lost behind the end of the input.
    NoLossAfterEnd,
}

impl ReplayFault {
    pub open spec fn text(self) -> Seq<char> {
        match self {
            ReplayFault::ImproperPrefix { pid, accepted, length } => "refusing to kill transport "@
                + text::decimal(pid as nat) + ": accepted prefix "@ + text::decimal(
                accepted as nat,
            ) + " is not proper for "@ + text::decimal(length as nat) + " bytes"@,
            ReplayFault::NoLossAfterEnd => {
                "stdin replay did not lose a transport after finite producer EOF"@
            },
        }
    }

    pub fn message(&self) -> (r: String)
        ensures
            r@ == self.text(),
    {
        match self {
            ReplayFault::ImproperPrefix { pid, accepted, length } => {
                let mut r = join3(
                    "refusing to kill transport ",
                    decimal_text(*pid as u64).as_str(),
                    ": accepted prefix ",
                );
                r.append(decimal_text(*accepted).as_str());
                r.append(" is not proper for ");
                r.append(decimal_text(*length as u64).as_str());
                r.append(" bytes");
                r
            },
            ReplayFault::NoLossAfterEnd => {
                "stdin replay did not lose a transport after finite producer EOF".to_owned()
            },
        }
    }
}

/// The input trial.
pub struct ReplayView {
    pub length: usize,
    pub rng: Lcg,
    pub killed: Seq<u32>,
    pub pid: u32,
    pub loss_after_end: bool,
    pub stage: ReplayStage,
}

/// The input trial: which transports it has cut, and where it stands.
#[derive(Clone, Debug)]
pub struct ReplayRun {
    pub length: usize,
    pub rng: Lcg,
    pub killed: Vec<u32>,
    pub pid: u32,
    pub loss_after_end: bool,
    pub stage: ReplayStage,
}

impl View for ReplayRun {
    type V = ReplayView;

    open spec fn view(&self) -> ReplayView {
        ReplayView {
            length: self.length,
            rng: self.rng,
            killed: self.killed@,
            pid: self.pid,
            loss_after_end: self.loss_after_end,
            stage: self.stage,
        }
    }
}

/// Whether a transport may be cut at this prefix of the input.
pub open spec fn is_proper(accepted: u64, length: usize) -> bool {
    0 < accepted < length
}

/// Whether a transport may be cut at this prefix of the input.
pub fn proper_prefix(accepted: u64, length: usize) -> (r: bool)
    ensures
        r == is_proper(accepted, length),
{
    0 < accepted && accepted < length as u64
}

impl ReplayView {
    /// What the trial does next.
    pub open spec fn action(self) -> ReplayAction {
        match self.stage {
            ReplayStage::First => ReplayAction::AwaitTransport { previous: None },
            ReplayStage::FirstProgress => ReplayAction::AwaitProgress,
            ReplayStage::FirstKill { .. } => ReplayAction::Kill { pid: self.pid },
            ReplayStage::Again => ReplayAction::ReadProgress,
            ReplayStage::Next => ReplayAction::AwaitTransport { previous: Some(self.pid) },
            ReplayStage::Delay { millis } => ReplayAction::Sleep { millis },
            ReplayStage::Look => ReplayAction::ReadProgress,
            ReplayStage::Prefix => ReplayAction::AwaitProgress,
            ReplayStage::Producer { .. } => ReplayAction::LookAtProducer,
            ReplayStage::Kill { .. } => ReplayAction::Kill { pid: self.pid },
            ReplayStage::Join => ReplayAction::JoinProducer,
            ReplayStage::AfterEnd => ReplayAction::ReadProgress,
            ReplayStage::LastTransport => ReplayAction::AwaitTransport { previous: Some(self.pid) },
            ReplayStage::LastDelay => ReplayAction::Sleep { millis: 25 },
            ReplayStage::LastLook => ReplayAction::ReadProgress,
            ReplayStage::LastPrefix => ReplayAction::AwaitProgress,
            ReplayStage::LastKill { .. } => ReplayAction::Kill { pid: self.pid },
            ReplayStage::Done => ReplayAction::Finish,
        }
    }

    pub open spec fn at(self, stage: ReplayStage) -> ReplayView {
        ReplayView { stage, ..self }
    }

    /// The fault of cutting at an improper prefix.
    pub open spec fn improper(self, accepted: u64) -> ReplayFault {
        ReplayFault::ImproperPrefix { pid: self.pid, accepted, length: self.length }
    }

    /// Where the trial goes on once the producer has to be waited for, or the
    /// next transport has to be cut.
    pub open spec fn after_kill(self) -> ReplayView {
        if self.killed.len() < TARGET_DEATHS {
            self.at(ReplayStage::Again)
        } else {
            self.at(ReplayStage::Join)
        }
    }

    /// The trial ends: it must have lost a transport behind the end.
    pub open spec fn ended(self) -> Result<ReplayView, ReplayFault> {
        if self.loss_after_end {
            Ok(self.at(ReplayStage::Done))
        } else {
            Err(ReplayFault::NoLossAfterEnd)
        }
    }

    /// The trial after `event`. An event that answers no action of the trial
    /// changes nothing.
    pub open spec fn step(self, event: ReplayEvent) -> Result<ReplayView, ReplayFault> {
        match (self.stage, event) {
            (ReplayStage::First, ReplayEvent::Transport { pid }) => Ok(
                ReplayView { pid, stage: ReplayStage::FirstProgress, ..self },
            ),
            (ReplayStage::FirstProgress, ReplayEvent::Progress { accepted }) => if is_proper(
                accepted,
                self.length,
            ) {
                Ok(self.at(ReplayStage::FirstKill { accepted }))
            } else {
                Err(self.improper(accepted))
            },
            (ReplayStage::FirstKill { .. }, ReplayEvent::Killed) => Ok(
                (ReplayView { killed: self.killed.push(self.pid), ..self }).after_kill(),
            ),
            (ReplayStage::Again, ReplayEvent::Progress { accepted }) => if accepted >= self.length {
                Ok(self.at(ReplayStage::Join))
            } else {
                Ok(self.at(ReplayStage::Next))
            },
            (ReplayStage::Next, ReplayEvent::Transport { pid }) => {
                let number = plan::stepped(self.rng.state);
                Ok(
                    ReplayView {
                        pid,
                        rng: Lcg { state: number },
                        stage: ReplayStage::Delay { millis: (15 + number % 55) as u64 },
                        ..self
                    },
                )
            },
            (ReplayStage::Delay { .. }, ReplayEvent::Slept) => Ok(self.at(ReplayStage::Look)),
            (ReplayStage::Look, ReplayEvent::Progress { accepted }) => if accepted >= self.length {
                Ok(self.at(ReplayStage::Join))
            } else if accepted > 0 {
                Ok(self.at(ReplayStage::Producer { accepted }))
            } else {
                Ok(self.at(ReplayStage::Prefix))
            },
            (ReplayStage::Prefix, ReplayEvent::Progress { accepted }) => if is_proper(
                accepted,
                self.length,
            ) {
                Ok(self.at(ReplayStage::Producer { accepted }))
            } else {
                Err(self.improper(accepted))
            },
            (ReplayStage::Producer { accepted }, ReplayEvent::Producer { done }) => Ok(
                self.at(ReplayStage::Kill { accepted, done }),
            ),
            (ReplayStage::Kill { done, .. }, ReplayEvent::Killed) => Ok(
                (ReplayView {
                    killed: self.killed.push(self.pid),
                    loss_after_end: self.loss_after_end || done,
                    ..self
                }).after_kill(),
            ),
            (ReplayStage::Join, ReplayEvent::Joined) => if self.loss_after_end {
                self.ended()
            } else {
                Ok(self.at(ReplayStage::AfterEnd))
            },
            (ReplayStage::AfterEnd, ReplayEvent::Progress { accepted }) => if accepted
                >= self.length {
                self.ended()
            } else {
                Ok(self.at(ReplayStage::LastTransport))
            },
            (ReplayStage::LastTransport, ReplayEvent::Transport { pid }) => Ok(
                ReplayView { pid, stage: ReplayStage::LastDelay, ..self },
            ),
            (ReplayStage::LastDelay, ReplayEvent::Slept) => Ok(self.at(ReplayStage::LastLook)),
            (ReplayStage::LastLook, ReplayEvent::Progress { accepted }) => if accepted
                >= self.length {
                self.ended()
            } else if accepted > 0 {
                Ok(self.at(ReplayStage::LastKill { accepted }))
            } else {
                Ok(self.at(ReplayStage::LastPrefix))
            },
            (ReplayStage::LastPrefix, ReplayEvent::Progress { accepted }) => if accepted
                >= self.length {
                self.ended()
            } else if accepted > 0 {
                Ok(self.at(ReplayStage::LastKill { accepted }))
            } else {
                Err(self.improper(accepted))
            },
            (ReplayStage::LastKill { .. }, ReplayEvent::Killed) => (ReplayView {
                killed: self.killed.push(self.pid),
                loss_after_end: true,
                ..self
            }).ended(),
            _ => Ok(self),
        }
    }

    /// The trial keeps to its plan: it cuts only at a proper prefix, never more
    /// often than planned, and is done only after a loss behind the end.
    pub open spec fn valid(self) -> bool {
        &&& match self.stage {
            ReplayStage::First | ReplayStage::FirstProgress => self.killed.len() == 0
                && !self.loss_after_end,
            ReplayStage::FirstKill { accepted } => self.killed.len() == 0 && !self.loss_after_end
                && is_proper(accepted, self.length),
            ReplayStage::Again | ReplayStage::Next | ReplayStage::Delay { .. } | ReplayStage::Look
            | ReplayStage::Prefix => 1 <= self.killed.len() < TARGET_DEATHS,
            ReplayStage::Producer { accepted } => 1 <= self.killed.len() < TARGET_DEATHS
                && is_proper(accepted, self.length),
            ReplayStage::Kill { accepted, .. } => 1 <= self.killed.len() < TARGET_DEATHS
                && is_proper(accepted, self.length),
            ReplayStage::Join => 1 <= self.killed.len() <= TARGET_DEATHS,
            ReplayStage::AfterEnd | ReplayStage::LastTransport | ReplayStage::LastDelay
            | ReplayStage::LastLook | ReplayStage::LastPrefix => 1 <= self.killed.len()
                <= TARGET_DEATHS && !self.loss_after_end,
            ReplayStage::LastKill { accepted } => 1 <= self.killed.len() <= TARGET_DEATHS
                && !self.loss_after_end && is_proper(accepted, self.length),
            ReplayStage::Done => 1 <= self.killed.len() <= TARGET_DEATHS + 1
                && self.loss_after_end,
        }
    }
}

impl ReplayRun {
    pub fn new(seed: u64, length: usize) -> (r: ReplayRun)
        ensures
            r@ == (ReplayView {
                length,
                rng: Lcg { state: plan::seeded(seed ^ 0xa5a5_5a5a_d15c_a11eu64) },
                killed: Seq::empty(),
                pid: 0,
                loss_after_end: false,
                stage: ReplayStage::First,
            }),
            r@.valid(),
    {
        let r = ReplayRun {
            length,
            rng: Lcg::new(seed ^ 0xa5a5_5a5a_d15c_a11e),
            killed: Vec::new(),
            pid: 0,
            loss_after_end: false,
            stage: ReplayStage::First,
        };
        assert(r.killed@ =~= Seq::<u32>::empty());
        r
    }

    /// What to do next.
    pub fn action(&self) -> (r: ReplayAction)
        ensures
            r == self@.action(),
    {
        match self.stage {
            ReplayStage::First => ReplayAction::AwaitTransport { previous: None },
            ReplayStage::FirstProgress | ReplayStage::Prefix | ReplayStage::LastPrefix => {
                ReplayAction::AwaitProgress
            },
            ReplayStage::FirstKill { .. }
            | ReplayStage::Kill { .. }
            | ReplayStage::LastKill { .. } => ReplayAction::Kill { pid: self.pid },
            ReplayStage::Again
            | ReplayStage::Look
            | ReplayStage::AfterEnd
            | ReplayStage::LastLook => ReplayAction::ReadProgress,
            ReplayStage::Next | ReplayStage::LastTransport => {
                ReplayAction::AwaitTransport { previous: Some(self.pid) }
            },
            ReplayStage::Delay { millis } => ReplayAction::Sleep { millis },
            ReplayStage::Producer { .. } => ReplayAction::LookAtProducer,
            ReplayStage::Join => ReplayAction::JoinProducer,
            ReplayStage::LastDelay => ReplayAction::Sleep { millis: 25 },
            ReplayStage::Done => ReplayAction::Finish,
        }
    }

    fn after_kill(&mut self)
        ensures
            final(self)@ == old(self)@.after_kill(),
    {
        if self.killed.len() < TARGET_DEATHS {
            self.stage = ReplayStage::Again;
        } else {
            self.stage = ReplayStage::Join;
        }
    }

    fn end(&mut self) -> (r: Result<(), ReplayFault>)
        ensures
            match old(self)@.ended() {
                Ok(after) => r is Ok && final(self)@ == after,
                Err(fault) => r == Err::<(), ReplayFault>(fault) && final(self)@ == old(self)@,
            },
    {
        if self.loss_after_end {
            self.stage = ReplayStage::Done;
            Ok(())
        } else {
            Err(ReplayFault::NoLossAfterEnd)
        }
    }

    fn progressed(&mut self, accepted: u64) -> (r: Result<(), ReplayFault>)
        ensures
            match old(self)@.step(ReplayEvent::Progress { accepted }) {
                Ok(after) => r is Ok && final(self)@ == after,
                Err(fault) => r == Err::<(), ReplayFault>(fault) && final(self)@ == old(self)@,
            },
    {
        let all = accepted >= self.length as u64;
        let proper = proper_prefix(accepted, self.length);
        match self.stage {
            ReplayStage::FirstProgress => {
                if !proper {
                    return Err(
                        ReplayFault::ImproperPrefix {
                            pid: self.pid,
                            accepted,
                            length: self.length,
                        },
                    );
                }
                self.stage = ReplayStage::FirstKill { accepted };
                Ok(())
            },
            ReplayStage::Again => {
                self.stage = if all {
                    ReplayStage::Join
                } else {
                    ReplayStage::Next
                };
                Ok(())
            },
            ReplayStage::Look => {
                self.stage = if all {
                    ReplayStage::Join
                } else if accepted > 0 {
                    ReplayStage::Producer { accepted }
                } else {
                    ReplayStage::Prefix
                };
                Ok(())
            },
            ReplayStage::Prefix => {
                if !proper {
                    return Err(
                        ReplayFault::ImproperPrefix {
                            pid: self.pid,
                            accepted,
                            length: self.length,
                        },
                    );
                }
                self.stage = ReplayStage::Producer { accepted };
                Ok(())
            },
            ReplayStage::AfterEnd => {
                if all {
                    return self.end();
                }
                self.stage = ReplayStage::LastTransport;
                Ok(())
            },
            ReplayStage::LastLook => {
                if all {
                    return self.end();
                }
                self.stage = if accepted > 0 {
                    ReplayStage::LastKill { accepted }
                } else {
                    ReplayStage::LastPrefix
                };
                Ok(())
            },
            ReplayStage::LastPrefix => {
                if all {
                    return self.end();
                }
                if !proper {
                    return Err(
                        ReplayFault::ImproperPrefix {
                            pid: self.pid,
                            accepted,
                            length: self.length,
                        },
                    );
                }
                self.stage = ReplayStage::LastKill { accepted };
                Ok(())
            },
            _ => Ok(()),
        }
    }

    fn killed(&mut self) -> (r: Result<(), ReplayFault>)
        ensures
            match old(self)@.step(ReplayEvent::Killed) {
                Ok(after) => r is Ok && final(self)@ == after,
                Err(fault) => r == Err::<(), ReplayFault>(fault) && final(self)@ == old(self)@,
            },
    {
        match self.stage {
            ReplayStage::FirstKill { .. } => {
                self.killed.push(self.pid);
                self.after_kill();
                Ok(())
            },
            ReplayStage::Kill { done, .. } => {
                self.killed.push(self.pid);
                self.loss_after_end = self.loss_after_end || done;
                self.after_kill();
                Ok(())
            },
            ReplayStage::LastKill { .. } => {
                self.killed.push(self.pid);
                self.loss_after_end = true;
                self.end()
            },
            _ => Ok(()),
        }
    }

    /// Takes what came of the last action.
    pub fn event(&mut self, event: ReplayEvent) -> (r: Result<(), ReplayFault>)
        requires
            old(self)@.valid(),
        ensures
            final(self)@.valid(),
            match old(self)@.step(event) {
                Ok(after) => r is Ok && final(self)@ == after,
                Err(fault) => r == Err::<(), ReplayFault>(fault) && final(self)@ == old(self)@,
            },
    {
        match event {
            ReplayEvent::Progress { accepted } => self.progressed(accepted),
            ReplayEvent::Killed => self.killed(),
            ReplayEvent::Transport { pid } => {
                match self.stage {
                    ReplayStage::First => {
                        self.pid = pid;
                        self.stage = ReplayStage::FirstProgress;
                    },
                    ReplayStage::Next => {
                        let number: u64 = self.rng.next_u64();
                        self.pid = pid;
                        self.stage = ReplayStage::Delay { millis: 15 + number % 55 };
                    },
                    ReplayStage::LastTransport => {
                        self.pid = pid;
                        self.stage = ReplayStage::LastDelay;
                    },
                    _ => {},
                }
                Ok(())
            },
            ReplayEvent::Slept => {
                match self.stage {
                    ReplayStage::Delay { .. } => {
                        self.stage = ReplayStage::Look;
                    },
                    ReplayStage::LastDelay => {
                        self.stage = ReplayStage::LastLook;
                    },
                    _ => {},
                }
                Ok(())
            },
            ReplayEvent::Producer { done } => {
                if let ReplayStage::Producer { accepted } = self.stage {
                    self.stage = ReplayStage::Kill { accepted, done };
                }
                Ok(())
            },
            ReplayEvent::Joined => {
                if let ReplayStage::Join = self.stage {
                    if self.loss_after_end {
                        return self.end();
                    }
                    self.stage = ReplayStage::AfterEnd;
                }
                Ok(())
            },
        }
    }
}

/// Whatever happens, the trial kills a transport only while the command has
/// accepted some of the input but not all of it, and at most once more than
/// planned.
pub proof fn kills_are_proper(run: ReplayView)
    requires
        run.valid(),
        run.action() is Kill,
    ensures
        run.action() == (ReplayAction::Kill { pid: run.pid }),
        exists|accepted: u64|
            is_proper(accepted, run.length) && (run.stage == (ReplayStage::FirstKill { accepted })
                || run.stage == (ReplayStage::LastKill { accepted }) || exists|done: bool|
                run.stage == (ReplayStage::Kill { accepted, done })),
        run.killed.len() <= TARGET_DEATHS,
{
    match run.stage {
        ReplayStage::FirstKill { accepted } => {
            assert(is_proper(accepted, run.length));
        },
        ReplayStage::Kill { accepted, done } => {
            assert(is_proper(accepted, run.length));
            assert(run.stage == (ReplayStage::Kill { accepted, done }));
        },
        ReplayStage::LastKill { accepted } => {
            assert(is_proper(accepted, run.length));
        },
        _ => {},
    }
}

/// Every step keeps the trial to its plan, and a trial that is done has lost a
/// transport behind the end of the input.
pub proof fn steps_keep_the_plan(run: ReplayView, event: ReplayEvent)
    requires
        run.valid(),
    ensures
        match run.step(event) {
            Ok(after) => after.valid() && (after.stage is Done ==> after.loss_after_end)
                && run.killed.is_prefix_of(after.killed),
            Err(_) => true,
        },
{
}

/// A record of the input begins with the letters of its mark, and its number stands
/// behind them, lowest byte first.
pub proof fn records_name_their_number(
    record: usize,
    mark: (u8, u8, u8, u8),
    low: u8,
    high: u8,
)
    requires
        record * 64 + 63 <= usize::MAX,
        call_ensures(deterministic_stdin_byte, ((record * 64) as usize,), mark.0),
        call_ensures(deterministic_stdin_byte, ((record * 64 + 1) as usize,), mark.1),
        call_ensures(deterministic_stdin_byte, ((record * 64 + 2) as usize,), mark.2),
        call_ensures(deterministic_stdin_byte, ((record * 64 + 3) as usize,), mark.3),
        call_ensures(deterministic_stdin_byte, ((record * 64 + 4) as usize,), low),
        call_ensures(deterministic_stdin_byte, ((record * 64 + 5) as usize,), high),
    ensures
        mark == (80u8, 75u8, 73u8, 78u8),
        low == record % 256,
        high == (record / 256) % 256,
{
    let number = record as u64;
    assert(number >> 0u64 & 0xff == number % 256) by (bit_vector);
    assert(number >> 8u64 & 0xff == (number / 256) % 256) by (bit_vector);
}

/// The input has as many bytes as asked for, each at its own place, so that a
/// longer input only goes on where a shorter one ends.
pub proof fn longer_inputs_go_on(shorter: usize, longer: usize, r: Vec<u8>, s: Vec<u8>)
    requires
        shorter <= longer,
        call_ensures(deterministic_stdin_input, (shorter,), r),
        call_ensures(deterministic_stdin_input, (longer,), s),
    ensures
        r@.len() == shorter,
        s@.len() == longer,
        s@.take(shorter as int) == r@,
{
    assert(s@.take(shorter as int) =~= r@);
}

/// The byte at a place of the input is the one that is told for it.
pub proof fn bytes_stand_at_their_place(length: usize, at: usize, r: Vec<u8>, byte: u8)
    requires
        at < length,
        call_ensures(deterministic_stdin_input, (length,), r),
        call_ensures(deterministic_stdin_byte, (at,), byte),
    ensures
        r@[at as int] == byte,
{
}

/// Bytes match exactly if they are what the input holds at their place.
pub proof fn chunks_match_only_in_place(
    chunk: &[u8],
    offset: u64,
    length: usize,
    input: Vec<u8>,
    r: bool,
)
    requires
        call_ensures(deterministic_stdin_input, (length,), input),
        call_ensures(raw_chunk_matches_input, (chunk, offset, length), r),
    ensures
        r <==> offset + chunk@.len() <= length && chunk@ == input@.subrange(
            offset as int,
            offset + chunk@.len(),
        ),
{
}

/// The command takes bytes exactly if they continue the input where what it took
/// ends, and moves by their number; and its input is complete exactly if it took
/// the whole.
pub proof fn commands_take_the_input_in_order(
    workload: &mut WorkloadInput,
    chunk: &[u8],
    input: Vec<u8>,
    r: Result<(), InputFault>,
    done: Result<(), InputFault>,
)
    requires
        old(workload).valid(),
        call_ensures(deterministic_stdin_input, (old(workload).expected,), input),
        call_ensures(WorkloadInput::accept, (workload, chunk), r),
        call_ensures(WorkloadInput::finish, (&*old(workload),), done),
    ensures
        ({
            let at = old(workload).accepted;
            &&& r is Ok <==> at + chunk@.len() <= input@.len() && chunk@ == input@.subrange(
                at as int,
                at + chunk@.len(),
            )
            &&& r is Ok ==> final(workload).accepted == at + chunk@.len()
            &&& r is Err ==> final(workload).accepted == at
            &&& r is Err ==> (r->Err_0 is Beyond <==> at + chunk@.len() > input@.len())
            &&& final(workload).expected == old(workload).expected
            &&& done is Ok <==> at == old(workload).expected
        }),
{
}

/// A prefix is proper if some of the input was accepted, and not all.
pub proof fn proper_prefixes_are_neither_empty_nor_whole(accepted: u64, length: usize, r: bool)
    requires
        call_ensures(proper_prefix, (accepted, length), r),
    ensures
        r <==> 0 < accepted && accepted < length,
{
}

/// What the trial does follows from where it stands: it kills exactly the transport
/// that it waited for, and waits for another one than that.
pub proof fn actions_follow_the_stage(run: ReplayRun, r: ReplayAction)
    requires
        call_ensures(ReplayRun::action, (&run,), r),
    ensures
        r is Kill <==> run.stage is FirstKill || run.stage is Kill || run.stage is LastKill,
        r matches ReplayAction::Kill { pid } ==> pid == run.pid,
        r matches ReplayAction::AwaitTransport { previous } ==> (previous is None <==> run.stage
            is First) && (previous is Some ==> previous == Some(run.pid)),
        r is AwaitTransport <==> run.stage is First || run.stage is Next || run.stage
            is LastTransport,
        r is Finish <==> run.stage is Done,
        r is JoinProducer <==> run.stage is Join,
        r is LookAtProducer <==> run.stage is Producer,
        r matches ReplayAction::Sleep { millis } ==> (run.stage matches ReplayStage::Delay {
            millis: planned,
        } ==> millis == planned) && (run.stage is LastDelay ==> millis == 25),
        r is Sleep <==> run.stage is Delay || run.stage is LastDelay,
        r is AwaitProgress <==> run.stage is FirstProgress || run.stage is Prefix || run.stage
            is LastPrefix,
        r is ReadProgress <==> run.stage is Again || run.stage is Look || run.stage is AfterEnd
            || run.stage is LastLook,
{
    assert(r == run@.action());
}

/// A trial begins with nothing cut.
pub proof fn trials_begin_whole(seed: u64, length: usize, r: ReplayRun)
    requires
        call_ensures(ReplayRun::new, (seed, length), r),
    ensures
        r.length == length,
        r.killed@.len() == 0,
        !r.loss_after_end,
        r.stage is First,
{
    assert(r@.killed.len() == 0);
}

/// Whatever happens: a transport counts as cut only when it was killed at a place
/// that the trial chose for it, and it is the one that the trial waited for. A loss
/// behind the end of the input is one that was cut after the producer had finished.
/// The trial is over only after such a loss.
pub proof fn cuts_are_counted_as_they_happen(
    run: &mut ReplayRun,
    event: ReplayEvent,
    r: Result<(), ReplayFault>,
)
    requires
        old(run)@.valid(),
        call_ensures(ReplayRun::event, (run, event), r),
    ensures
        ({
            let killing = old(run).stage is FirstKill || old(run).stage is Kill || old(run).stage
                is LastKill;
            &&& event is Killed && killing && r is Ok
                ==> final(run).killed@ == old(run).killed@.push(old(run).pid)
            &&& !(event is Killed && killing) ==> final(run).killed@ == old(run).killed@
            &&& final(run).loss_after_end <==> old(run).loss_after_end || (event is Killed && r
                is Ok && (old(run).stage is LastKill || (old(run).stage matches ReplayStage::Kill {
                done,
                ..
            } && done)))
            &&& final(run).stage is Done && !(old(run).stage is Done) ==> final(run).loss_after_end
            &&& event matches ReplayEvent::Transport { pid } ==> {
                let waiting = old(run).stage is First || old(run).stage is Next || old(run).stage
                    is LastTransport;
                &&& waiting ==> final(run).pid == pid && r is Ok
                &&& !waiting ==> final(run).pid == old(run).pid
            }
            &&& !(event is Transport) ==> final(run).pid == old(run).pid
            &&& final(run).length == old(run).length
            &&& r is Err ==> final(run).stage == old(run).stage
            &&& final(run).killed@.len() <= 4
        }),
{
    assert(match old(run)@.step(event) {
        Ok(after) => r is Ok && final(run)@ == after,
        Err(fault) => r == Err::<(), ReplayFault>(fault) && final(run)@ == old(run)@,
    });
    assert(final(run)@.valid());
}

/// A transport is cut only while the command has accepted some of the input and not
/// all of it: a place to cut is reached only with such a prefix. Where all of it was
/// accepted the trial goes on to the producer or to its end, and where none was it
/// looks again, or fails.
pub proof fn cuts_wait_for_a_proper_prefix(
    run: &mut ReplayRun,
    accepted: u64,
    r: Result<(), ReplayFault>,
)
    requires
        old(run)@.valid(),
        call_ensures(ReplayRun::event, (run, ReplayEvent::Progress { accepted }), r),
    ensures
        ({
            let proper = 0 < accepted && accepted < old(run).length;
            let all = accepted >= old(run).length;
            let stage = old(run).stage;
            &&& stage is FirstProgress ==> (r is Ok <==> proper) && (r is Ok ==> final(run).stage
                == (ReplayStage::FirstKill { accepted }))
            &&& stage is Again ==> r is Ok && (all <==> final(run).stage is Join) && (!all
                <==> final(run).stage is Next)
            &&& stage is Look ==> {
                &&& r is Ok
                &&& all <==> final(run).stage is Join
                &&& proper <==> final(run).stage == (ReplayStage::Producer { accepted })
                &&& !all && !proper <==> final(run).stage is Prefix
            }
            &&& stage is Prefix ==> (r is Ok <==> proper) && (r is Ok ==> final(run).stage
                == (ReplayStage::Producer { accepted }))
            &&& stage is AfterEnd ==> (r is Err <==> all) && (r is Ok ==> final(run).stage
                is LastTransport)
            &&& stage is LastLook ==> {
                &&& r is Err <==> all
                &&& r is Ok && proper ==> final(run).stage == (ReplayStage::LastKill { accepted })
                &&& r is Ok && !proper ==> final(run).stage is LastPrefix
            }
            &&& stage is LastPrefix ==> (r is Ok <==> proper) && (r is Ok ==> final(run).stage
                == (ReplayStage::LastKill { accepted }))
            &&& r is Err && !all ==> r->Err_0 is ImproperPrefix
            &&& r is Err && all && !(stage is FirstProgress) && !(stage is Prefix)
                ==> r->Err_0 is NoLossAfterEnd
        }),
{
    assert(match old(run)@.step(ReplayEvent::Progress { accepted }) {
        Ok(after) => r is Ok && final(run)@ == after,
        Err(fault) => r == Err::<(), ReplayFault>(fault) && final(run)@ == old(run)@,
    });
}

/// The trial goes on: a transport that appears is waited on or looked at, a wait
/// ends, a producer that was looked at leads to the cut, and after three cuts, or
/// once all of the input was accepted, the trial waits for the producer.
pub proof fn trials_go_on(run: &mut ReplayRun, event: ReplayEvent, r: Result<(), ReplayFault>)
    requires
        old(run)@.valid(),
        call_ensures(ReplayRun::event, (run, event), r),
    ensures
        ({
            let stage = old(run).stage;
            &&& stage is First && event is Transport ==> final(run).stage is FirstProgress
            &&& stage is Next && event is Transport
                ==> (final(run).stage matches ReplayStage::Delay { millis } && 15 <= millis <= 69)
            &&& stage is LastTransport && event is Transport ==> final(run).stage is LastDelay
            &&& stage is Delay && event is Slept ==> final(run).stage is Look
            &&& stage is LastDelay && event is Slept ==> final(run).stage is LastLook
            &&& stage matches ReplayStage::Producer { accepted }
                ==> (event matches ReplayEvent::Producer { done }
                ==> final(run).stage == (ReplayStage::Kill { accepted, done }))
            &&& (stage is FirstKill || stage is Kill) && event is Killed
                ==> (if old(run).killed@.len() + 1 < 3 {
                final(run).stage is Again
            } else {
                final(run).stage is Join
            })
            &&& stage is LastKill && event is Killed ==> final(run).stage is Done
            &&& stage is Join && event is Joined ==> (if old(run).loss_after_end {
                final(run).stage is Done
            } else {
                final(run).stage is AfterEnd
            })
            &&& stage is Done ==> final(run).stage is Done && r is Ok
        }),
{
    assert(match old(run)@.step(event) {
        Ok(after) => r is Ok && final(run)@ == after,
        Err(fault) => r == Err::<(), ReplayFault>(fault) && final(run)@ == old(run)@,
    });
}

/// What the command reports is the length, the number of whole records and the
/// digest of what it got.
pub proof fn reports_tell_what_arrived(prefix: &str, length: usize, digest: &str, r: String)
    requires
        call_ensures(report, (prefix, length, digest), r),
    ensures
        r@ == prefix@ + "len="@ + text::decimal(length as nat) + " records="@ + text::decimal(
            (length / 64) as nat,
        ) + " sha256="@ + digest@ + "\n"@,
{
}

/// Digests are told in full: two are told alike exactly if they are.
pub proof fn digests_are_told_in_full(one: &[u8], other: &[u8], r: String, s: String)
    requires
        call_ensures(sha256_hex, (one,), r),
        call_ensures(sha256_hex, (other,), s),
    ensures
        r@ == s@ <==> runtime::sha256_of(one@) == runtime::sha256_of(other@),
{
    if r@ == s@ {
        text::hexadecimal_notation_is_unique(runtime::sha256_of(one@), runtime::sha256_of(other@));
    }
}

/// What the command says and what it leaves behind show the same position.
pub proof fn input_faults_show_the_position(fault: InputFault, r: String, s: String)
    requires
        call_ensures(InputFault::message, (&fault,), r),
        call_ensures(InputFault::record, (&fault,), s),
    ensures
        fault matches InputFault::Beyond { at } ==> r@
            == "stdin workload received bytes beyond expected EOF at "@ + text::decimal(at as nat)
            && s@ == "received bytes beyond expected EOF at "@ + text::decimal(at as nat) + "\n"@,
        fault matches InputFault::Differs { at } ==> r@
            == "stdin workload mismatch at accepted offset "@ + text::decimal(at as nat) && s@
            == "stdin mismatch at accepted offset "@ + text::decimal(at as nat) + "\n"@,
        fault matches InputFault::Short { accepted, expected } ==> r@ == "stdin workload ended at "@
            + text::decimal(accepted as nat) + " bytes, expected "@ + text::decimal(
            expected as nat,
        ) && s@ == "stdin ended at "@ + text::decimal(accepted as nat) + " bytes, expected "@
            + text::decimal(expected as nat) + "\n"@,
{
}

/// The command begins with nothing accepted.
pub proof fn input_is_awaited_from_its_beginning(expected: usize, r: WorkloadInput)
    requires
        call_ensures(WorkloadInput::new, (expected,), r),
    ensures
        r.accepted == 0,
        r.expected == expected,
{
}

/// A trial that fails shows the transport and the prefix, or that none was lost.
pub proof fn replay_faults_are_shown(fault: ReplayFault, r: String)
    requires
        call_ensures(ReplayFault::message, (&fault,), r),
    ensures
        fault matches ReplayFault::ImproperPrefix { pid, accepted, length } ==> r@
            == "refusing to kill transport "@ + text::decimal(pid as nat) + ": accepted prefix "@
            + text::decimal(accepted as nat) + " is not proper for "@ + text::decimal(length as nat)
            + " bytes"@,
        fault is NoLossAfterEnd ==> r@
            == "stdin replay did not lose a transport after finite producer EOF"@,
{
}

/// Every byte of a record's number stands in its place, eight of them, and what
/// fills the record behind it depends on the number and on the place alone: the
/// number is spread by one odd factor and turned by the place, and the place is
/// spread by another.
pub proof fn records_are_filled_behind_their_number(record: u64, place: u64, index: usize, r: u8)
    requires
        place < 64,
        index == record * 64 + place,
        call_ensures(deterministic_stdin_byte, (index,), r),
    ensures
        4 <= place < 12 ==> r == (record >> ((8 * (place - 4)) as u64) & 0xff),
        place >= 12 ==> ({
            let word = record.wrapping_mul(0x9e37_79b9_7f4a_7c15u64);
            let count = place % 31;
            let turned = if count == 0 {
                word
            } else {
                (word << count) | (word >> ((64 - count) as u64))
            };
            let bits = turned ^ place.wrapping_mul(0xd1b5_4a32_d192_ed03u64);
            r == (bits >> ((8 * (place % 8)) as u64) & 0xff)
        }),
{
    assert(index / 64 == record);
    assert(index % 64 == place);
    let shifted = record >> ((8 * (place - 4)) as u64);
    assert((shifted & 0xff) <= 255) by (bit_vector);
    let bits = mixed(record, place);
    let filled = bits >> ((8 * (place % 8)) as u64);
    assert((filled & 0xff) <= 255) by (bit_vector);
}

} // verus!
