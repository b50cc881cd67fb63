//! The life of a session around its attachments: draining output, the
//! command's exit, cancellation by group number, settings and expiry.
use vstd::prelude::*;

use crate::broker::bounds::ReadResult;
use crate::broker::{Broker, Meta, Session, Stream, MAX_CLOCK, MAX_PERIOD};
use crate::cancellation::{Cancellation, OperationEvent, SignalAnswers, StepFacts};
use crate::group_pidfd::GroupSignal;
use crate::output::OutputFact;
use crate::protocol::{CancelOutcome, ExitResult};
use crate::text;
use crate::text::{join, parse_unsigned};

verus! {

/// Nanoseconds in a second.
pub const SECOND: u128 = 1_000_000_000;

/// Seconds in a day: the longest period of an opted-in session.
pub const DAY_SECONDS: u64 = 86_400;

/// The value of a setting in seconds: the default unless it is a number.
pub open spec fn setting(value: Option<Seq<char>>, default: u64) -> u64 {
    match value {
        Some(written) => {
            let digits = text::unsigned_digits(written);
            if text::is_number(digits) && text::number(digits) <= u64::MAX {
                text::number(digits) as u64
            } else {
                default
            }
        },
        None => default,
    }
}

/// Reads a setting in seconds. What is no number counts as not set.
pub fn seconds_setting(value: Option<&str>, default: u64) -> (r: u64)
    ensures
        r == setting(
            match value {
                Some(written) => Some(written@),
                None => None,
            },
            default,
        ),
{
    match value {
        Some(written) => match parse_unsigned(written) {
            Some(seconds) => seconds,
            None => default,
        },
        None => default,
    }
}

/// The periods of an opted-in session, in nanoseconds.
#[derive(Clone, Copy, Debug, PartialEq, Eq, Structural)]
pub struct HardenedPeriods {
    pub grace: u128,
    pub settlement: u128,
    pub ttl: u128,
}

/// A period in seconds, at most a day and at least `least`.
pub open spec fn clamped(seconds: u64, least: u64) -> int {
    if seconds > DAY_SECONDS {
        DAY_SECONDS as int
    } else if seconds < least {
        least as int
    } else {
        seconds as int
    }
}

fn clamp_seconds(seconds: u64, least: u64) -> (r: u128)
    requires
        least <= DAY_SECONDS,
    ensures
        r == clamped(seconds, least) * SECOND,
        r <= MAX_PERIOD,
{
    let bounded: u64 = if seconds > DAY_SECONDS {
        DAY_SECONDS
    } else if seconds < least {
        least
    } else {
        seconds
    };
    bounded as u128 * SECOND
}

/// The periods of an opted-in session from its settings in seconds: each at
/// most a day, and at least one second to settle.
pub fn hardened_periods(grace: u64, settlement: u64, ttl: u64) -> (r: HardenedPeriods)
    ensures
        r.grace == clamped(grace, 0) * SECOND,
        r.settlement == clamped(settlement, 1) * SECOND,
        r.ttl == clamped(ttl, 0) * SECOND,
        r.grace <= MAX_PERIOD,
        r.settlement <= MAX_PERIOD,
        r.ttl <= MAX_PERIOD,
{
    HardenedPeriods {
        grace: clamp_seconds(grace, 0),
        settlement: clamp_seconds(settlement, 1),
        ttl: clamp_seconds(ttl, 0),
    }
}

/// What becomes of a read from an output pipe of a session without finite
/// output.
#[derive(Clone, Copy, Debug, PartialEq, Eq, Structural)]
pub enum DrainStep {
    /// The stream is closed.
    Closed,
    /// The stream failed and stays unclosed.
    Failed,
    /// The bytes stand at this position of the stream. `live` says whether they
    /// go to the live queue.
    Placed { offset: u64, live: bool },
}

impl Meta {
    /// The retained state after `count` more bytes of a stream.
    pub open spec fn with_bytes(self, stream: Stream, count: int) -> Meta {
        match stream {
            Stream::Stdout => Meta { stdout_end: (self.stdout_end + count) as u64, ..self },
            Stream::Stderr => Meta { stderr_end: (self.stderr_end + count) as u64, ..self },
        }
    }
}

/// The diagnostic for a failed output pipe.
pub open spec fn output_failure_text(error: Seq<char>) -> Seq<char> {
    "output read failed: "@ + error
}

/// The diagnostic for a failed wait.
pub open spec fn wait_failure_text(error: Seq<char>) -> Seq<char> {
    "workload wait failed: "@ + error
}

/// The first of two failures.
pub open spec fn first_failure(known: Option<String>, error: Seq<char>) -> Seq<char> {
    match known {
        Some(text) => text@,
        None => error,
    }
}

impl<H: GroupSignal> Broker<H> {
    /// A broker whose command has just started.
    pub fn new(
        nobuffer: bool,
        cancellation: Option<Cancellation<H>>,
        output: Option<OutputFact>,
        grace: u128,
        settlement: u128,
    ) -> (r: Broker<H>)
        requires
            grace <= MAX_PERIOD,
            settlement <= MAX_PERIOD,
            cancellation is Some ==> cancellation->0@.valid(),
            output is Some ==> {
                &&& cancellation is Some
                &&& !nobuffer
                &&& output->0.limit <= crate::output::MAX_LIMIT
                &&& output->0 == OutputFact::initial(output->0.limit)
            },
        ensures
            r.valid(),
            r.session == (Session {
                meta: Meta { output, ..Meta::initial() },
                ..Session::initial(nobuffer)
            }),
            r.cancellation == cancellation,
            r.failure is None,
            r.pins == (crate::broker::IoPins { stdout: false, stderr: false, replay: false }),
            r.grace == grace,
            r.settlement == settlement,
            r.connections == 0,
    {
        let mut session = Session::new(nobuffer);
        session.meta.output = output;
        Broker {
            session,
            cancellation,
            failure: None,
            pins: crate::broker::IoPins { stdout: false, stderr: false, replay: false },
            grace,
            settlement,
            connections: 0,
        }
    }

    /// What becomes of a read from an output pipe. A session without group
    /// control takes a failed pipe for a closed one; an opted-in session keeps
    /// the failure and leaves the stream unclosed. Bytes are placed after they
    /// were stored.
    pub fn drain(&mut self, stream: Stream, result: ReadResult, error: &str) -> (r: DrainStep)
        requires
            old(self).valid(),
            !old(self).is_bounded(),
            result matches ReadResult::Bytes(count) ==> old(self).session.meta.end(stream) + count
                <= u64::MAX,
        ensures
            final(self).valid(),
            final(self).cancellation == old(self).cancellation,
            final(self).pins == old(self).pins,
            final(self).grace == old(self).grace,
            final(self).settlement == old(self).settlement,
            final(self).connections == old(self).connections,
            match result {
                ReadResult::Bytes(count) => {
                    &&& r == (DrainStep::Placed {
                        offset: old(self).session.meta.end(stream),
                        live: old(self).session.nobuffer,
                    })
                    &&& final(self).session == (Session {
                        meta: old(self).session.meta.with_bytes(stream, count as int),
                        ..old(self).session
                    })
                    &&& final(self).failure == old(self).failure
                },
                ReadResult::Failed if old(self).cancellation is Some => {
                    &&& r == DrainStep::Failed
                    &&& final(self).session == old(self).session
                    &&& final(self).failure is Some
                    &&& final(self).failure->0@ == first_failure(
                        old(self).failure,
                        output_failure_text(error@),
                    )
                },
                _ => {
                    &&& r == DrainStep::Closed
                    &&& final(self).session == (Session {
                        meta: old(self).session.meta.with_closed(stream),
                        ..old(self).session
                    })
                    &&& final(self).failure == old(self).failure
                },
            },
    {
        match result {
            ReadResult::Bytes(count) => {
                let offset: u64 = match stream {
                    Stream::Stdout => {
                        let offset: u64 = self.session.meta.stdout_end;
                        self.session.meta.stdout_end = offset + count as u64;
                        offset
                    },
                    Stream::Stderr => {
                        let offset: u64 = self.session.meta.stderr_end;
                        self.session.meta.stderr_end = offset + count as u64;
                        offset
                    },
                };
                return DrainStep::Placed { offset, live: self.session.nobuffer };
            },
            ReadResult::Failed => {
                if self.cancellation.is_some() {
                    if self.failure.is_none() {
                        self.failure = Some(join("output read failed: ", error));
                    }
                    return DrainStep::Failed;
                }
            },
            ReadResult::Eof => {},
        }
        match stream {
            Stream::Stdout => {
                self.session.meta.stdout_closed = true;
            },
            Stream::Stderr => {
                self.session.meta.stderr_closed = true;
            },
        }
        DrainStep::Closed
    }

    /// Records how the wait for the command ended, and closes its stdin. A
    /// session without group control takes a failed wait for exit code 1; an
    /// opted-in session keeps the failure and never invents an exit.
    pub fn record_exit(&mut self, result: Result<ExitResult, String>)
        requires
            old(self).valid(),
            result is Ok ==> result->Ok_0.is_actual(),
        ensures
            final(self).valid(),
            final(self).cancellation == old(self).cancellation,
            final(self).pins == old(self).pins,
            final(self).grace == old(self).grace,
            final(self).settlement == old(self).settlement,
            final(self).connections == old(self).connections,
            match result {
                Err(error) if old(self).cancellation is Some => {
                    &&& final(self).session == (Session { stdin_open: false, ..old(self).session })
                    &&& final(self).failure is Some
                    &&& final(self).failure->0@ == first_failure(
                        old(self).failure,
                        wait_failure_text(error@),
                    )
                },
                _ => {
                    &&& final(self).session == (Session {
                        meta: Meta {
                            status: Some(
                                match result {
                                    Ok(exit) => exit,
                                    Err(_) => ExitResult { code: Some(1), signal: None },
                                },
                            ),
                            ..old(self).session.meta
                        },
                        stdin_open: false,
                        ..old(self).session
                    })
                    &&& final(self).failure == old(self).failure
                },
            },
    {
        self.session.stdin_open = false;
        match result {
            Ok(exit) => {
                self.session.meta.status = Some(exit);
            },
            Err(error) => {
                if self.cancellation.is_some() {
                    if self.failure.is_none() {
                        self.failure = Some(join("workload wait failed: ", error.as_str()));
                    }
                } else {
                    self.session.meta.status = Some(ExitResult { code: Some(1), signal: None });
                }
            },
        }
    }

    /// What one step of the broker's cancellation is given.
    pub open spec fn step_input(
        self,
        now: u128,
        first: bool,
        answers: crate::cancellation::Answers,
    ) -> crate::cancellation::StepInput {
        crate::cancellation::StepInput {
            now,
            exit: self.session.meta.status,
            terminal: self.session.meta.is_terminal(),
            failure: match self.failure {
                Some(error) => Some(error@),
                None => None,
            },
            first,
            answers,
        }
    }

    /// One step of the broker's cancellation, on what the session knows of the
    /// command. The group's handle is asked for exactly the signals of that step.
    pub fn hardened_step(&mut self, now: u128, first: bool)
        requires
            old(self).valid(),
            old(self).cancellation is Some,
        ensures
            final(self).valid(),
            final(self).session == old(self).session,
            final(self).failure == old(self).failure,
            final(self).pins == old(self).pins,
            final(self).grace == old(self).grace,
            final(self).settlement == old(self).settlement,
            final(self).connections == old(self).connections,
            final(self).cancellation is Some,
            exists|answers: SignalAnswers|
                {
                    &&& #[trigger] old(self).cancellation->0.answered(
                        old(self).step_input(now, first, answers@),
                        answers,
                    )
                    &&& final(self).cancellation->0.operation() == old(
                        self,
                    ).cancellation->0.operation().after(
                        OperationEvent::Step(old(self).step_input(now, first, answers@)),
                    )
                },
            final(self).control().has_handle ==> final(self).cancellation->0.handle.held() == old(
                self,
            ).cancellation->0.handle.held(),
    {
        let ghost before = *self;
        let failure = match &self.failure {
            Some(error) => Some(error.clone()),
            None => None,
        };
        let facts = StepFacts {
            now,
            exit: self.session.meta.status,
            terminal: self.session.meta.terminal(),
            failure,
            first,
        };
        let ghost given = facts;
        if let Some(cancellation) = self.cancellation.as_mut() {
            let ghost control = *cancellation;
            cancellation.step(facts);
            proof {
                let answers = choose|answers: SignalAnswers|
                    {
                        &&& #[trigger] control.answered(given.with(answers@), answers)
                        &&& cancellation.operation() == control.operation().after(
                            OperationEvent::Step(given.with(answers@)),
                        )
                    };
                assert(given.with(answers@) == before.step_input(now, first, answers@));
            }
        }
    }

    /// A connection was accepted.
    pub fn connected(&mut self)
        requires
            old(self).connections < u64::MAX,
        ensures
            final(self).connections == old(self).connections + 1,
            *final(self) == (Broker { connections: final(self).connections, ..*old(self) }),
            old(self).valid() ==> final(self).valid(),
    {
        self.connections = self.connections + 1;
    }

    /// A connection ended.
    pub fn disconnected(&mut self)
        requires
            old(self).connections > 0,
        ensures
            final(self).connections == old(self).connections - 1,
            *final(self) == (Broker { connections: final(self).connections, ..*old(self) }),
            old(self).valid() ==> final(self).valid(),
    {
        self.connections = self.connections - 1;
    }

    /// Whether something pins an opted-in session.
    pub open spec fn is_busy(self) -> bool {
        ||| self.connections != 0
        ||| self.cancellation is Some && self.control().active()
        ||| self.is_bounded() && self.policy().io_inflight != 0
    }

    /// Whether an opted-in session may expire once nothing pins it: its exit
    /// and output are final or its cancellation has ended, and its collectors
    /// have finished.
    pub open spec fn is_eligible(self) -> bool {
        &&& self.session.meta.is_terminal() || (self.cancellation is Some
            && self.control().result is Some)
        &&& self.is_bounded() ==> self.policy().is_collected()
    }

    /// Whether an opted-in session is pinned, and whether it may expire once it
    /// is not.
    pub fn hardened_lifetime_state(&self) -> (r: (bool, bool))
        requires
            self.valid(),
        ensures
            r == (self.is_busy(), self.is_eligible()),
    {
        let (active, finished) = match &self.cancellation {
            Some(cancellation) => (cancellation.active(), cancellation.finished()),
            None => (false, false),
        };
        let (inflight, collected) = match &self.session.meta.output {
            Some(policy) => (policy.io_inflight != 0, policy.collected()),
            None => (false, true),
        };
        (
            self.connections != 0 || active || inflight,
            (self.session.meta.terminal() || finished) && collected,
        )
    }
}

/// How long an opted-in session has been idle.
#[derive(Clone, Copy, Debug, PartialEq, Eq, Structural)]
pub struct IdleClock {
    /// Since when, if it is idle.
    pub since: Option<u128>,
    /// How many connections had been accepted then.
    pub accepted: u64,
}

impl IdleClock {
    pub open spec fn next(self, now: u128, busy: bool, eligible: bool, accepted: u64) -> IdleClock {
        if busy || !eligible {
            IdleClock { since: None, accepted }
        } else if self.since is None || self.accepted != accepted {
            IdleClock { since: Some(now), accepted }
        } else {
            self
        }
    }

    pub fn new() -> (r: IdleClock)
        ensures
            r == (IdleClock { since: None, accepted: 0 }),
    {
        IdleClock { since: None, accepted: 0 }
    }

    /// Looks at the session once. Idle time begins afresh whenever something
    /// pins the session and whenever a connection was accepted. `true` means
    /// that the session has been idle for `ttl` and expires.
    pub fn tick(&mut self, now: u128, busy: bool, eligible: bool, accepted: u64, ttl: u128) -> (r:
        bool)
        requires
            old(self).since is Some ==> old(self).since->0 <= now,
        ensures
            *final(self) == old(self).next(now, busy, eligible, accepted),
            r == (final(self).since is Some && now - final(self).since->0 >= ttl),
    {
        if busy || !eligible {
            self.since = None;
        } else if self.since.is_none() || self.accepted != accepted {
            self.since = Some(now);
        }
        self.accepted = accepted;
        match self.since {
            Some(since) => now - since >= ttl,
            None => false,
        }
    }
}

/// A session that is pinned or has not settled never expires.
pub proof fn pinned_sessions_stay(
    clock: IdleClock,
    now: u128,
    busy: bool,
    eligible: bool,
    accepted: u64,
)
    requires
        busy || !eligible,
    ensures
        clock.next(now, busy, eligible, accepted).since is None,
{
}

/// How far a session without group control is on its way to expiry.
#[derive(Clone, Copy, Debug, PartialEq, Eq, Structural)]
pub enum LegacyLifetime {
    /// Waits for exit and both output ends.
    Running,
    /// Waits for connections to end.
    Settling,
    /// Keeps the result until then.
    Retained(u128),
    /// Waits for connections that came meanwhile.
    Closing,
    Expired,
}

impl LegacyLifetime {
    pub open spec fn next(self, now: u128, terminal: bool, connections: u64, ttl: u128) -> LegacyLifetime {
        match self {
            LegacyLifetime::Running => if terminal {
                LegacyLifetime::Settling
            } else {
                self
            },
            LegacyLifetime::Settling => if connections == 0 {
                LegacyLifetime::Retained((now + ttl) as u128)
            } else {
                self
            },
            LegacyLifetime::Retained(until) => if now >= until {
                LegacyLifetime::Closing
            } else {
                self
            },
            LegacyLifetime::Closing => if connections == 0 {
                LegacyLifetime::Expired
            } else {
                self
            },
            LegacyLifetime::Expired => self,
        }
    }

    /// Looks at the session once.
    pub fn tick(&mut self, now: u128, terminal: bool, connections: u64, ttl: u128)
        requires
            now <= MAX_CLOCK,
            ttl <= MAX_CLOCK,
        ensures
            *final(self) == old(self).next(now, terminal, connections, ttl),
    {
        *self = match *self {
            LegacyLifetime::Running => {
                if terminal {
                    LegacyLifetime::Settling
                } else {
                    LegacyLifetime::Running
                }
            },
            LegacyLifetime::Settling => {
                if connections == 0 {
                    LegacyLifetime::Retained(now + ttl)
                } else {
                    LegacyLifetime::Settling
                }
            },
            LegacyLifetime::Retained(until) => {
                if now >= until {
                    LegacyLifetime::Closing
                } else {
                    LegacyLifetime::Retained(until)
                }
            },
            LegacyLifetime::Closing => {
                if connections == 0 {
                    LegacyLifetime::Expired
                } else {
                    LegacyLifetime::Closing
                }
            },
            LegacyLifetime::Expired => LegacyLifetime::Expired,
        };
    }
}

/// The error number for a group or process that does not exist.
pub const ESRCH: i32 = 3;

/// What sending a signal to a group by its number came to.
#[derive(Clone, Copy, Debug, PartialEq, Eq, Structural)]
pub enum SignalAnswer {
    /// At least one member was there to receive it.
    Reached,
    /// The group had settled before.
    NoGroup,
    /// Something else went wrong.
    Failed,
}

/// Reads the error number of a signal attempt; none means success.
pub fn signal_answer(errno: Option<i32>) -> (r: SignalAnswer)
    ensures
        r == (match errno {
            None => SignalAnswer::Reached,
            Some(number) => if number == ESRCH {
                SignalAnswer::NoGroup
            } else {
                SignalAnswer::Failed
            },
        }),
{
    match errno {
        None => SignalAnswer::Reached,
        Some(number) => {
            if number == ESRCH {
                SignalAnswer::NoGroup
            } else {
                SignalAnswer::Failed
            }
        },
    }
}

/// Whether a group exists, from the error number of a probe: only the answer
/// that there is no such group says that it does not.
pub fn group_exists(errno: Option<i32>) -> (r: bool)
    ensures
        r == (errno != Some(ESRCH)),
{
    match errno {
        Some(number) => number != ESRCH,
        None => true,
    }
}

/// Where cancellation by group number stands.
#[derive(Clone, Copy, Debug, PartialEq, Eq, Structural)]
pub enum NumberedPhase {
    /// The group has its grace period.
    Grace,
    /// It is asked once more whether the group exists.
    Escalate,
    /// KILL is being sent.
    Killing,
    /// Waits for the group to disappear.
    Vanishing,
    /// Waits for the command's exit and output.
    Settling,
}

/// What cancellation by group number does next.
#[derive(Clone, Copy, Debug, PartialEq, Eq, Structural)]
pub enum NumberedAction {
    /// Wait so many nanoseconds, then probe.
    Pause(u128),
    /// Probe at once.
    Probe,
    /// Send KILL.
    Kill,
    /// Wait until the session is terminal.
    AwaitTerminal,
}

/// Cancellation of a session without group control.
#[derive(Clone, Copy, Debug, PartialEq, Eq, Structural)]
pub struct NumberedCancel {
    pub phase: NumberedPhase,
    pub signaled: bool,
    pub deadline: u128,
}

/// How long the grace period pauses between probes.
pub const GRACE_PAUSE: u128 = 50_000_000;

/// How long to pause while the group disappears.
pub const VANISH_PAUSE: u128 = 25_000_000;

impl NumberedCancel {
    /// The state and the action after a probe.
    pub open spec fn after_probe(self, present: bool, now: u128) -> (NumberedCancel, NumberedAction) {
        match self.phase {
            NumberedPhase::Grace => if present && now < self.deadline {
                (self, NumberedAction::Pause(GRACE_PAUSE))
            } else {
                (
                    NumberedCancel { phase: NumberedPhase::Escalate, ..self },
                    NumberedAction::Probe,
                )
            },
            NumberedPhase::Escalate => if present {
                (NumberedCancel { phase: NumberedPhase::Killing, ..self }, NumberedAction::Kill)
            } else {
                (
                    NumberedCancel { phase: NumberedPhase::Vanishing, ..self },
                    NumberedAction::Probe,
                )
            },
            NumberedPhase::Killing => (self, NumberedAction::Kill),
            NumberedPhase::Vanishing => if present {
                (self, NumberedAction::Pause(VANISH_PAUSE))
            } else {
                (
                    NumberedCancel { phase: NumberedPhase::Settling, ..self },
                    NumberedAction::AwaitTerminal,
                )
            },
            NumberedPhase::Settling => (self, NumberedAction::AwaitTerminal),
        }
    }

    /// Begins with the answer to TERM. A failed attempt ends it at once.
    pub fn begin(term: SignalAnswer, now: u128, grace_seconds: u64) -> (r: Option<NumberedCancel>)
        requires
            now <= MAX_CLOCK,
        ensures
            match r {
                None => term == SignalAnswer::Failed,
                Some(state) => term != SignalAnswer::Failed && state == (NumberedCancel {
                    phase: NumberedPhase::Grace,
                    signaled: term == SignalAnswer::Reached,
                    deadline: (now + grace_seconds * SECOND) as u128,
                }),
            },
    {
        assert(grace_seconds * SECOND <= u64::MAX * 1_000_000_000) by (nonlinear_arith)
            requires
                grace_seconds <= u64::MAX,
                SECOND == 1_000_000_000,
        ;
        let signaled = match term {
            SignalAnswer::Reached => true,
            SignalAnswer::NoGroup => false,
            SignalAnswer::Failed => {
                return None;
            },
        };
        Some(
            NumberedCancel {
                phase: NumberedPhase::Grace,
                signaled,
                deadline: now + grace_seconds as u128 * SECOND,
            },
        )
    }

    /// Takes the answer of a probe.
    pub fn probed(&mut self, present: bool, now: u128) -> (r: NumberedAction)
        ensures
            (*final(self), r) == old(self).after_probe(present, now),
    {
        match self.phase {
            NumberedPhase::Grace => {
                if present && now < self.deadline {
                    NumberedAction::Pause(GRACE_PAUSE)
                } else {
                    self.phase = NumberedPhase::Escalate;
                    NumberedAction::Probe
                }
            },
            NumberedPhase::Escalate => {
                if present {
                    self.phase = NumberedPhase::Killing;
                    NumberedAction::Kill
                } else {
                    self.phase = NumberedPhase::Vanishing;
                    NumberedAction::Probe
                }
            },
            NumberedPhase::Killing => NumberedAction::Kill,
            NumberedPhase::Vanishing => {
                if present {
                    NumberedAction::Pause(VANISH_PAUSE)
                } else {
                    self.phase = NumberedPhase::Settling;
                    NumberedAction::AwaitTerminal
                }
            },
            NumberedPhase::Settling => NumberedAction::AwaitTerminal,
        }
    }

    /// Takes the answer to KILL. `false` means that the attempt failed and
    /// cancellation ends with an error.
    pub fn killed(&mut self, kill: SignalAnswer) -> (r: bool)
        requires
            old(self).phase == NumberedPhase::Killing,
        ensures
            r == (kill != SignalAnswer::Failed),
            *final(self) == (if r {
                NumberedCancel {
                    phase: NumberedPhase::Vanishing,
                    signaled: old(self).signaled || kill == SignalAnswer::Reached,
                    ..*old(self)
                }
            } else {
                *old(self)
            }),
    {
        match kill {
            SignalAnswer::Failed => false,
            SignalAnswer::Reached => {
                self.signaled = true;
                self.phase = NumberedPhase::Vanishing;
                true
            },
            SignalAnswer::NoGroup => {
                self.phase = NumberedPhase::Vanishing;
                true
            },
        }
    }

    /// What the caller is told: the command's own exit, and whether a signal
    /// reached the group.
    pub fn outcome(&self, status: Option<ExitResult>) -> (r: Result<
        (CancelOutcome, ExitResult),
        String,
    >)
        ensures
            match status {
                None => r matches Err(error) && error@ == "command has no terminal result"@,
                Some(exit) => r matches Ok((outcome, told)) && told == exit && (outcome
                    == CancelOutcome::CancelWon <==> self.signaled),
            },
    {
        match status {
            None => Err("command has no terminal result".to_owned()),
            Some(exit) => {
                let outcome = if self.signaled {
                    CancelOutcome::CancelWon
                } else {
                    CancelOutcome::AlreadyExited
                };
                Ok((outcome, exit))
            },
        }
    }
}

/// Cancellation by group number asks for KILL only after the grace period or
/// once the group was found gone and present again, and only with a probe that
/// found the group; after KILL it never signals again.
pub proof fn kill_follows_a_probe(state: NumberedCancel, present: bool, now: u128)
    ensures
        state.phase != NumberedPhase::Killing && state.after_probe(present, now).1
            == NumberedAction::Kill ==> present && state.phase == NumberedPhase::Escalate,
        state.phase == NumberedPhase::Vanishing || state.phase == NumberedPhase::Settling
            ==> state.after_probe(present, now).1 != NumberedAction::Kill && (state.after_probe(
            present,
            now,
        ).0.phase == NumberedPhase::Vanishing || state.after_probe(present, now).0.phase
            == NumberedPhase::Settling),
        state.after_probe(present, now).0.signaled == state.signaled,
{
}

/// A look at a session without group control.
pub struct LifeTick {
    pub now: u128,
    pub terminal: bool,
    pub connections: u64,
}

/// How far a session is on its way to expiry after looks at it, from its start.
pub open spec fn lived(ticks: Seq<LifeTick>, ttl: u128) -> LegacyLifetime
    decreases ticks.len(),
{
    if ticks.len() == 0 {
        LegacyLifetime::Running
    } else {
        let last = ticks.last();
        lived(ticks.drop_last(), ttl).next(last.now, last.terminal, last.connections, ttl)
    }
}

/// Whether a look found the session terminal and without connections.
pub open spec fn found_settled(ticks: Seq<LifeTick>, i: int) -> bool {
    0 <= i < ticks.len() && ticks[i].terminal && ticks[i].connections == 0
}

/// Whether looks follow each other: the clock never goes back, and a session
/// that is terminal stays so.
pub open spec fn in_order(ticks: Seq<LifeTick>) -> bool {
    forall|i: int, j: int|
        0 <= i <= j < ticks.len() ==> (#[trigger] ticks[i]).now <= (#[trigger] ticks[j]).now && (
        ticks[i].terminal ==> ticks[j].terminal)
}

/// The result of a session is kept for its time: a session expires only after a
/// look found it terminal and without connections, and `ttl` later at the
/// earliest. What was found meanwhile never shortens that time.
pub proof fn results_are_kept_for_their_time(ticks: Seq<LifeTick>, ttl: u128)
    requires
        in_order(ticks),
        ttl <= MAX_CLOCK,
        forall|i: int| 0 <= i < ticks.len() ==> (#[trigger] ticks[i]).now <= MAX_CLOCK,
    ensures
        lived(ticks, ttl) is Expired || lived(ticks, ttl) is Closing ==> exists|i: int|
            #[trigger] found_settled(ticks, i) && ticks.last().now >= ticks[i].now + ttl,
        lived(ticks, ttl) matches LegacyLifetime::Retained(until) ==> exists|i: int|
            #[trigger] found_settled(ticks, i) && until == ticks[i].now + ttl,
        lived(ticks, ttl) is Settling ==> ticks.len() > 0 && ticks.last().terminal,
    decreases ticks.len(),
{
    if ticks.len() > 0 {
        let earlier = ticks.drop_last();
        let n = earlier.len() as int;
        assert forall|i: int| 0 <= i < n implies #[trigger] earlier[i] == ticks[i] by {}
        assert forall|i: int, j: int| 0 <= i <= j < n implies (#[trigger] earlier[i]).now
            <= (#[trigger] earlier[j]).now && (earlier[i].terminal ==> earlier[j].terminal) by {
            assert(earlier[i] == ticks[i] && earlier[j] == ticks[j]);
        }
        results_are_kept_for_their_time(earlier, ttl);
        assert(ticks.last() == ticks[n]);
        if n > 0 {
            assert(earlier.last() == ticks[n - 1]);
            assert(ticks[n - 1].now <= ticks[n].now);
        }
        let before = lived(earlier, ttl);
        if before is Expired || before is Closing {
            let i = choose|i: int|
                #[trigger] found_settled(earlier, i) && earlier.last().now >= earlier[i].now + ttl;
            assert(found_settled(ticks, i));
        } else if let LegacyLifetime::Retained(until) = before {
            let i = choose|i: int|
                #[trigger] found_settled(earlier, i) && until == earlier[i].now + ttl;
            assert(found_settled(ticks, i));
        } else if before is Settling {
            assert(found_settled(ticks, n) || ticks[n].connections != 0);
        }
    }
}

/// A terminal session without connections does expire, once its time is over;
/// and while a connection is there, or before it is terminal, it does not.
pub proof fn settled_sessions_expire(
    ticks: Seq<LifeTick>,
    ttl: u128,
    first: u128,
    second: u128,
    third: u128,
    fourth: u128,
)
    requires
        first <= MAX_CLOCK,
        second <= MAX_CLOCK,
        ttl <= MAX_CLOCK,
        third >= second + ttl,
        forall|i: int| 0 <= i < ticks.len() ==> !(#[trigger] ticks[i]).terminal,
    ensures
        lived(ticks, ttl) is Running,
        lived(ticks, ttl).next(first, true, 0, ttl).next(second, true, 0, ttl).next(
            third,
            true,
            0,
            ttl,
        ).next(fourth, true, 0, ttl) is Expired,
        forall|now: u128, connections: u64|
            connections > 0 ==> !(#[trigger] lived(ticks, ttl).next(first, true, 0, ttl).next(
                second,
                true,
                0,
                ttl,
            ).next(third, true, 0, ttl).next(now, true, connections, ttl) is Expired),
    decreases ticks.len(),
{
    if ticks.len() > 0 {
        let earlier = ticks.drop_last();
        assert forall|i: int| 0 <= i < earlier.len() implies !(#[trigger] earlier[i]).terminal by {
            assert(earlier[i] == ticks[i]);
        }
        settled_sessions_expire(earlier, ttl, first, second, third, fourth);
        assert(!ticks[ticks.len() - 1].terminal);
    }
}

/// Each look takes the session one step on its way.
pub proof fn looks_take_one_step(
    life: &mut LegacyLifetime,
    now: u128,
    terminal: bool,
    connections: u64,
    ttl: u128,
)
    requires
        now <= MAX_CLOCK,
        ttl <= MAX_CLOCK,
        call_ensures(LegacyLifetime::tick, (life, now, terminal, connections, ttl), ()),
    ensures
        *final(life) == old(life).next(now, terminal, connections, ttl),
        *old(life) is Settling && connections == 0 ==> *final(life) == LegacyLifetime::Retained(
            (now + ttl) as u128,
        ),
        *final(life) is Expired ==> *old(life) is Expired || connections == 0,
{
}

/// A look at an opted-in session.
pub struct IdleTick {
    pub now: u128,
    pub busy: bool,
    pub eligible: bool,
    pub accepted: u64,
}

/// The idle clock after looks at a session, from its start.
pub open spec fn idled(ticks: Seq<IdleTick>) -> IdleClock
    decreases ticks.len(),
{
    if ticks.len() == 0 {
        IdleClock { since: None, accepted: 0 }
    } else {
        let last = ticks.last();
        idled(ticks.drop_last()).next(last.now, last.busy, last.eligible, last.accepted)
    }
}

/// Whether every look from the one at `from` on found nothing that pins the
/// session, the session settled, and no new connection.
pub open spec fn idle_from(ticks: Seq<IdleTick>, from: int) -> bool {
    &&& 0 <= from < ticks.len()
    &&& forall|i: int|
        from <= i < ticks.len() ==> !(#[trigger] ticks[i]).busy && ticks[i].eligible
            && ticks[i].accepted == ticks.last().accepted
}

/// Idle time is counted from a look since which nothing pinned the session, the
/// session was settled and no connection was accepted; so it expires only after
/// it was idle all that time.
pub proof fn idle_time_is_unbroken(ticks: Seq<IdleTick>)
    ensures
        idled(ticks).since matches Some(since) ==> exists|from: int|
            #[trigger] idle_from(ticks, from) && ticks[from].now == since,
        ticks.len() > 0 ==> (idled(ticks).since is Some <==> !ticks.last().busy
            && ticks.last().eligible) && idled(ticks).accepted == ticks.last().accepted,
    decreases ticks.len(),
{
    if ticks.len() > 0 {
        let earlier = ticks.drop_last();
        let n = earlier.len() as int;
        idle_time_is_unbroken(earlier);
        let last = ticks.last();
        let before = idled(earlier);
        if !last.busy && last.eligible {
            if before.since is Some && before.accepted == last.accepted {
                let from = choose|from: int|
                    #[trigger] idle_from(earlier, from) && earlier[from].now == before.since->0;
                assert forall|i: int| from <= i < ticks.len() implies !(#[trigger] ticks[i]).busy
                    && ticks[i].eligible && ticks[i].accepted == ticks.last().accepted by {
                    if i < n {
                        assert(earlier[i] == ticks[i]);
                    }
                }
                assert(earlier[from] == ticks[from]);
                assert(idle_from(ticks, from));
            } else {
                assert(ticks[n] == last);
                assert(idle_from(ticks, n));
            }
        }
    }
}

/// Each look moves the idle clock, and expiry is exactly to have been idle for
/// `ttl`.
pub proof fn idle_sessions_expire_in_time(
    clock: &mut IdleClock,
    now: u128,
    busy: bool,
    eligible: bool,
    accepted: u64,
    ttl: u128,
    expired: bool,
)
    requires
        old(clock).since is Some ==> old(clock).since->0 <= now,
        call_ensures(IdleClock::tick, (clock, now, busy, eligible, accepted, ttl), expired),
    ensures
        *final(clock) == old(clock).next(now, busy, eligible, accepted),
        expired <==> (final(clock).since matches Some(since) && now >= since + ttl),
        busy || !eligible ==> !expired,
        !busy && eligible && old(clock).since is Some && old(clock).accepted == accepted
            ==> final(clock).since == old(clock).since,
        !busy && eligible && old(clock).accepted != accepted ==> final(clock).since == Some(now),
{
}

/// An opted-in session is pinned by a connection, by a running cancellation and
/// by filesystem work, and by nothing else. It may expire exactly if its exit and
/// both outputs are final or its cancellation has ended, and, with finite output,
/// both streams were collected.
pub proof fn pins_and_settlement<H: GroupSignal>(broker: Broker<H>, state: (bool, bool))
    requires
        broker.valid(),
        call_ensures(Broker::<H>::hardened_lifetime_state, (&broker,), state),
    ensures
        ({
            let meta = broker.session.meta;
            let control = broker.cancellation;
            let running = control is Some && (control->0.phase is Term || control->0.phase is Kill
                || control->0.phase is NoSignal);
            let settled = meta.status is Some && meta.stdout_closed && meta.stderr_closed;
            let collected = meta.output is None || !(meta.output->0.stdout.collection is Reading)
                && !(meta.output->0.stderr.collection is Reading);
            &&& state.0 <==> broker.connections > 0 || running || (meta.output is Some
                && meta.output->0.io_inflight > 0)
            &&& state.1 <==> (settled || (control is Some && control->0.result is Some))
                && collected
        }),
{
}

/// A setting in decimal notation is taken as it is written, with or without a
/// sign; one that is missing or empty is the default.
pub proof fn settings_are_read_back(seconds: u64, default: u64)
    ensures
        setting(Some(text::decimal(seconds as nat)), default) == seconds,
        setting(None, default) == default,
        setting(Some(Seq::empty()), default) == default,
{
    let written = text::decimal(seconds as nat);
    text::decimal_round_trip(seconds as nat);
    assert(text::is_digit(written[0]));
    assert(text::unsigned_digits(written) == written);
}

/// Settings are read in this way wherever they come from.
pub proof fn settings_are_plain(value: Option<&str>, default: u64, seconds: u64)
    requires
        call_ensures(seconds_setting, (value, default), seconds),
    ensures
        value is None ==> seconds == default,
        value matches Some(written) ==> seconds == setting(Some(written@), default),
{
}

/// The periods of an opted-in session are its settings in nanoseconds, each at
/// most a day, with at least one second to settle.
pub proof fn periods_are_capped(grace: u64, settlement: u64, ttl: u64, periods: HardenedPeriods)
    requires
        call_ensures(hardened_periods, (grace, settlement, ttl), periods),
    ensures
        grace <= 86_400 ==> periods.grace == grace * 1_000_000_000,
        grace > 86_400 ==> periods.grace == 86_400_000_000_000,
        1 <= settlement <= 86_400 ==> periods.settlement == settlement * 1_000_000_000,
        settlement == 0 ==> periods.settlement == 1_000_000_000,
        settlement > 86_400 ==> periods.settlement == 86_400_000_000_000,
        ttl <= 86_400 ==> periods.ttl == ttl * 1_000_000_000,
        ttl > 86_400 ==> periods.ttl == 86_400_000_000_000,
{
}

/// Output is placed where its stream ended, without a gap, and moves only the
/// end of its own stream. A stream is closed by its end, never by bytes; and a
/// pipe that failed closes it only in a session without group control.
pub proof fn drained_output_is_contiguous<H: GroupSignal>(
    broker: &mut Broker<H>,
    stream: Stream,
    result: ReadResult,
    error: &str,
    step: DrainStep,
)
    requires
        old(broker).valid(),
        !old(broker).is_bounded(),
        result matches ReadResult::Bytes(count) ==> old(broker).session.meta.end(stream) + count
            <= u64::MAX,
        call_ensures(Broker::<H>::drain, (broker, stream, result, error), step),
    ensures
        ({
            let before = old(broker).session.meta;
            let after = final(broker).session.meta;
            let (own, own_after, other, other_after) = match stream {
                Stream::Stdout => (
                    before.stdout_end,
                    after.stdout_end,
                    before.stderr_end,
                    after.stderr_end,
                ),
                Stream::Stderr => (
                    before.stderr_end,
                    after.stderr_end,
                    before.stdout_end,
                    after.stdout_end,
                ),
            };
            let closed_after = match stream {
                Stream::Stdout => after.stdout_closed,
                Stream::Stderr => after.stderr_closed,
            };
            &&& other_after == other
            &&& after.stdin_position == before.stdin_position
            &&& after.status == before.status
            &&& result matches ReadResult::Bytes(count) ==> own_after == own + count && (
            step matches DrainStep::Placed { offset, live } && offset == own && live == old(
                broker,
            ).session.nobuffer) && after.stdout_closed == before.stdout_closed
                && after.stderr_closed == before.stderr_closed
            &&& !(result is Bytes) ==> own_after == own
            &&& result is Eof ==> closed_after && step is Closed
            &&& result is Failed && old(broker).cancellation is None ==> closed_after
                && step is Closed
            &&& result is Failed && old(broker).cancellation is Some ==> step is Failed
                && after.stdout_closed == before.stdout_closed && after.stderr_closed
                == before.stderr_closed && final(broker).failure is Some
        }),
{
}

/// The exit that is recorded is the one that was waited for. A failed wait is
/// never taken for an exit by an opted-in session. Either way the command's stdin
/// is closed and its output stays as it was.
pub proof fn exits_are_recorded_as_they_are<H: GroupSignal>(
    broker: &mut Broker<H>,
    result: Result<ExitResult, String>,
)
    requires
        old(broker).valid(),
        result is Ok ==> result->Ok_0.is_actual(),
        call_ensures(Broker::<H>::record_exit, (broker, result), ()),
    ensures
        result is Ok ==> final(broker).session.meta.status == Some(result->Ok_0),
        result is Err && old(broker).cancellation is Some ==> final(broker).session.meta.status
            == old(broker).session.meta.status && final(broker).failure is Some,
        result is Err && old(broker).cancellation is None ==> final(broker).session.meta.status
            == Some(ExitResult { code: Some(1), signal: None }),
        !final(broker).session.stdin_open,
        final(broker).session.meta.stdout_end == old(broker).session.meta.stdout_end,
        final(broker).session.meta.stderr_end == old(broker).session.meta.stderr_end,
        final(broker).session.meta.stdin_position == old(broker).session.meta.stdin_position,
        final(broker).session.meta.stdin_eof_at == old(broker).session.meta.stdin_eof_at,
{
}

/// Only the answer that there is no such group says that it is gone. Every other
/// failure of a signal is a failure.
pub proof fn only_no_group_means_absence(errno: Option<i32>, answer: SignalAnswer, exists_: bool)
    requires
        call_ensures(signal_answer, (errno,), answer),
        call_ensures(group_exists, (errno,), exists_),
    ensures
        answer is Reached <==> errno is None,
        answer is NoGroup <==> errno == Some(3i32),
        exists_ <==> errno != Some(3i32),
{
}

/// Cancellation by group number begins with TERM unless it failed, and gives the
/// group its whole grace period.
pub proof fn numbered_cancellation_begins_with_term(
    term: SignalAnswer,
    now: u128,
    grace_seconds: u64,
    begun: Option<NumberedCancel>,
)
    requires
        now <= MAX_CLOCK,
        call_ensures(NumberedCancel::begin, (term, now, grace_seconds), begun),
    ensures
        begun is None <==> term is Failed,
        begun matches Some(state) ==> {
            &&& state.phase is Grace
            &&& state.signaled <==> term is Reached
            &&& state.deadline == now + grace_seconds * 1_000_000_000
        },
{
    assert(grace_seconds * SECOND <= u64::MAX * 1_000_000_000) by (nonlinear_arith)
        requires
            grace_seconds <= u64::MAX,
            SECOND == 1_000_000_000,
    ;
}

/// A probe never signals. While the group is there and its grace period lasts,
/// cancellation waits; KILL comes only after the grace period or once the group
/// was gone, and only if a second probe finds the group; and cancellation waits
/// for the command's result only once the group has disappeared.
pub proof fn numbered_cancellation_escalates_late(
    state: &mut NumberedCancel,
    present: bool,
    now: u128,
    action: NumberedAction,
)
    requires
        call_ensures(NumberedCancel::probed, (state, present, now), action),
    ensures
        final(state).signaled == old(state).signaled,
        final(state).deadline == old(state).deadline,
        old(state).phase is Grace ==> {
            &&& present && now < old(state).deadline <==> action is Pause
            &&& action is Pause ==> final(state).phase is Grace
            &&& action !is Pause ==> action is Probe && final(state).phase is Escalate
        },
        old(state).phase is Escalate ==> (action is Kill <==> present) && (action is Kill
            <==> final(state).phase is Killing) && (!present ==> final(state).phase is Vanishing),
        old(state).phase is Vanishing ==> (action is AwaitTerminal <==> !present) && (present
            ==> action is Pause && final(state).phase is Vanishing) && (!present
            ==> final(state).phase is Settling),
        old(state).phase is Settling ==> action is AwaitTerminal && final(state).phase is Settling,
{
}

/// KILL is sent once: its answer leads on to waiting for the group, unless it
/// failed, and only a signal that reached the group counts.
pub proof fn numbered_cancellation_kills_once(
    state: &mut NumberedCancel,
    kill: SignalAnswer,
    goes_on: bool,
)
    requires
        old(state).phase is Killing,
        call_ensures(NumberedCancel::killed, (state, kill), goes_on),
    ensures
        goes_on <==> !(kill is Failed),
        goes_on ==> final(state).phase is Vanishing && (final(state).signaled <==> old(
            state,
        ).signaled || kill is Reached),
        final(state).deadline == old(state).deadline,
{
}

/// The caller of a numbered cancellation is told the command's own exit, and that
/// the cancellation won exactly if a signal reached the group.
pub proof fn numbered_outcomes_are_true(
    state: NumberedCancel,
    status: Option<ExitResult>,
    told: Result<(CancelOutcome, ExitResult), String>,
)
    requires
        call_ensures(NumberedCancel::outcome, (&state, status), told),
    ensures
        told is Ok <==> status is Some,
        told is Ok ==> told->Ok_0.1.code == status->0.code && told->Ok_0.1.signal
            == status->0.signal,
        told is Ok ==> (told->Ok_0.0 is CancelWon <==> state.signaled),
{
}

/// Whether a look found the session terminal, and a later one found it without
/// connections.
pub open spec fn found_free(ticks: Seq<LifeTick>, first: int, free: int) -> bool {
    0 <= first < free < ticks.len() && ticks[first].terminal && ticks[free].connections == 0
}

/// The time for which a result is kept never begins before the session was found
/// terminal, and then with a look that found it without connections, whatever the
/// looks in between found; only the clock must not go back.
pub proof fn retention_begins_without_connections(ticks: Seq<LifeTick>, ttl: u128)
    requires
        forall|i: int, j: int|
            0 <= i <= j < ticks.len() ==> (#[trigger] ticks[i]).now <= (#[trigger] ticks[j]).now,
        ttl <= MAX_CLOCK,
        forall|i: int| 0 <= i < ticks.len() ==> (#[trigger] ticks[i]).now <= MAX_CLOCK,
    ensures
        lived(ticks, ttl) is Expired || lived(ticks, ttl) is Closing ==> exists|first: int, free: int|
            #[trigger] found_free(ticks, first, free) && ticks.last().now >= ticks[free].now + ttl,
        lived(ticks, ttl) matches LegacyLifetime::Retained(until) ==> exists|first: int, free: int|
            #[trigger] found_free(ticks, first, free) && until == ticks[free].now + ttl,
        lived(ticks, ttl) is Settling ==> exists|first: int|
            0 <= first < ticks.len() && (#[trigger] ticks[first]).terminal,
    decreases ticks.len(),
{
    if ticks.len() > 0 {
        let earlier = ticks.drop_last();
        let n = earlier.len() as int;
        assert forall|i: int| 0 <= i < n implies #[trigger] earlier[i] == ticks[i] by {}
        assert forall|i: int, j: int| 0 <= i <= j < n implies (#[trigger] earlier[i]).now
            <= (#[trigger] earlier[j]).now by {
            assert(earlier[i] == ticks[i] && earlier[j] == ticks[j]);
        }
        retention_begins_without_connections(earlier, ttl);
        assert(ticks.last() == ticks[n]);
        if n > 0 {
            assert(earlier.last() == ticks[n - 1]);
            assert(ticks[n - 1].now <= ticks[n].now);
        }
        let before = lived(earlier, ttl);
        if before is Expired || before is Closing {
            let (first, free) = choose|first: int, free: int|
                #[trigger] found_free(earlier, first, free) && earlier.last().now
                    >= earlier[free].now + ttl;
            assert(found_free(ticks, first, free));
        } else if let LegacyLifetime::Retained(until) = before {
            let (first, free) = choose|first: int, free: int|
                #[trigger] found_free(earlier, first, free) && until == earlier[free].now + ttl;
            assert(found_free(ticks, first, free));
        } else if before is Settling {
            let first = choose|first: int|
                0 <= first < earlier.len() && (#[trigger] earlier[first]).terminal;
            assert(ticks[first].terminal);
            assert(found_free(ticks, first, n) || ticks[n].connections != 0);
        } else {
            assert(ticks[n].terminal || !ticks[n].terminal);
        }
    }
}

/// Connections are counted one by one: one that came and went leaves everything as
/// it was.
pub proof fn connections_are_counted<H: GroupSignal>(
    broker: &mut Broker<H>,
    other: &mut Broker<H>,
)
    requires
        old(broker).connections < u64::MAX,
        old(other).connections > 0,
        call_ensures(Broker::<H>::connected, (broker,), ()),
        call_ensures(Broker::<H>::disconnected, (other,), ()),
    ensures
        final(broker).connections == old(broker).connections + 1,
        final(broker).session == old(broker).session,
        final(broker).cancellation == old(broker).cancellation,
        final(other).connections == old(other).connections - 1,
        final(other).session == old(other).session,
        final(other).cancellation == old(other).cancellation,
        *old(other) == *final(broker) ==> *final(other) == *old(broker),
{
}

/// A broker begins with nothing sent, nothing accepted, nobody attached and nothing
/// outstanding, and with the control, the limit and the periods that it is given.
pub proof fn brokers_begin_empty<H: GroupSignal>(
    nobuffer: bool,
    cancellation: Option<Cancellation<H>>,
    output: Option<OutputFact>,
    grace: u128,
    settlement: u128,
    r: Broker<H>,
)
    requires
        call_ensures(Broker::<H>::new, (nobuffer, cancellation, output, grace, settlement), r),
    ensures
        r.session.meta.stdin_position == 0 && r.session.meta.stdout_end == 0
            && r.session.meta.stderr_end == 0,
        !r.session.meta.stdin_eof && r.session.meta.stdin_eof_at is None,
        !r.session.meta.stdout_closed && !r.session.meta.stderr_closed,
        r.session.meta.status is None,
        r.session.meta.output == output,
        r.session.nobuffer == nobuffer,
        r.session.stdin_open,
        r.session.attachment.current is None,
        r.cancellation == cancellation,
        r.failure is None,
        r.connections == 0,
        !r.pins.stdout && !r.pins.stderr && !r.pins.replay,
        r.grace == grace && r.settlement == settlement,
{
}

/// A step of the broker's cancellation goes by what the session knows: it completes
/// only with the recorded exit and once both outputs are closed, the group counts as
/// gone only after an exit was recorded, and a recorded failure fails it in its own
/// words. The session itself does not change.
pub proof fn broker_steps_go_by_the_session<H: GroupSignal>(
    broker: &mut Broker<H>,
    now: u128,
    first: bool,
)
    requires
        old(broker).valid(),
        old(broker).cancellation is Some,
        call_ensures(Broker::<H>::hardened_step, (broker, now, first), ()),
    ensures
        ({
            let meta = old(broker).session.meta;
            let before = old(broker).cancellation->0;
            let after = final(broker).cancellation->0;
            let running = before.phase is Term || before.phase is Kill || before.phase is NoSignal;
            &&& final(broker).session == old(broker).session
            &&& final(broker).failure == old(broker).failure
            &&& !before.group_absent && after.group_absent ==> meta.status is Some
            &&& running && after.phase is Complete ==> {
                &&& meta.stdout_closed && meta.stderr_closed
                &&& after.group_absent
                &&& after.result matches Some(Ok(settled))
                &&& Some(settled.1) == meta.status
                &&& settled.0 is CancelWon <==> after.signaled
            }
            &&& running && old(broker).failure is Some ==> {
                &&& after.phase is Failed
                &&& after.result matches Some(Err(error)) && error@ == old(broker).failure->0@
            }
            &&& running && old(broker).failure is None && now >= before.finish_deadline->0 ==> {
                &&& after.phase is Failed
                &&& after.fault == Some(crate::output::ControlFault::Deadline)
            }
            &&& before.phase is NoSignal && old(broker).failure is None && now
                < before.finish_deadline->0 && meta.status is Some && meta.stdout_closed
                && meta.stderr_closed ==> after.phase is Complete
            &&& !running ==> after.phase == before.phase && after.handle.calls()
                == before.handle.calls()
            &&& before.phase is NoSignal ==> after.handle.calls() == before.handle.calls()
            &&& after.grace_deadline == before.grace_deadline
            &&& after.finish_deadline == before.finish_deadline
        }),
{
    let before = old(broker).cancellation->0;
    let answers = choose|answers: SignalAnswers|
        {
            &&& #[trigger] before.answered(
                old(broker).step_input(now, first, answers@),
                answers,
            )
            &&& final(broker).cancellation->0.operation() == before.operation().after(
                OperationEvent::Step(old(broker).step_input(now, first, answers@)),
            )
        };
    let input = old(broker).step_input(now, first, answers@);
    let after = final(broker).cancellation->0;
    assert(after@ == before@.stepped(input));
    assert(after.handle.calls() == before.handle.calls() + before@.signals(input));
    if before.phase !is Term && before.phase !is Kill {
        assert(before@.signals(input) =~= Seq::<i32>::empty());
        assert(after.handle.calls() =~= before.handle.calls());
    }
}

/// Idle time begins only when nothing pins the session, never before.
pub proof fn clocks_begin_unset(
    clock: &mut IdleClock,
    start: IdleClock,
    now: u128,
    busy: bool,
    eligible: bool,
    accepted: u64,
    ttl: u128,
    r: bool,
)
    requires
        call_ensures(IdleClock::new, (), start),
        *old(clock) == start,
        call_ensures(IdleClock::tick, (clock, now, busy, eligible, accepted, ttl), r),
    ensures
        start.since is None,
        start.accepted == 0,
        final(clock).since == (if !busy && eligible {
            Some(now)
        } else {
            None
        }),
        final(clock).accepted == accepted,
        r <==> !busy && eligible && ttl == 0,
{
}

/// A failed wait of an opted-in session is told as the session's failure, unless an
/// earlier one is; nothing else of the broker changes with an exit.
pub proof fn first_failures_are_kept<H: GroupSignal>(
    broker: &mut Broker<H>,
    result: Result<ExitResult, String>,
)
    requires
        old(broker).valid(),
        result is Ok ==> result->Ok_0.is_actual(),
        call_ensures(Broker::<H>::record_exit, (broker, result), ()),
    ensures
        result is Ok || old(broker).cancellation is None ==> final(broker).failure == old(broker).failure,
        result is Err && old(broker).cancellation is Some ==> final(broker).failure is Some && (
        match old(broker).failure {
            Some(first) => final(broker).failure->0@ == first@,
            None => final(broker).failure->0@ == "workload wait failed: "@ + result->Err_0@,
        }),
        final(broker).cancellation == old(broker).cancellation,
        final(broker).pins == old(broker).pins,
        final(broker).connections == old(broker).connections,
        final(broker).session.meta.output == old(broker).session.meta.output,
        final(broker).session.attachment == old(broker).session.attachment,
{
}

} // verus!
