//! One broker-owned cancellation operation. Requests only join it; they never
//! own signals.
use vstd::prelude::*;

use crate::group_pidfd::{Authority, GroupSignal, SIGKILL, SIGNAL_ZERO, SIGTERM};
use crate::output::{ControlFault, GroupControl};
use crate::protocol::{CancelOutcome, ExitResult, SessionFact, GROUP_PIDFD_CAPABILITY};
use crate::text::join3;

verus! {

/// Where the operation stands.
#[derive(Clone, Copy, Debug, PartialEq, Eq, Structural)]
pub enum Phase {
    /// Nothing has been asked for.
    Ready,
    /// The group was asked to terminate, and has its grace period.
    Term,
    /// The group was killed.
    Kill,
    /// The group is gone for good; no signal is sent any more.
    NoSignal,
    /// The group is gone and the command's exit and output are known.
    Complete,
    /// The operation ended without settlement. It is never retried.
    Failed,
}

/// How the operation ended.
pub type Completion = Result<(CancelOutcome, ExitResult), String>;

/// The operation and its authority over the group. Times are nanoseconds on one
/// monotonic clock.
pub struct Cancellation<H: GroupSignal> {
    pub handle: Authority<H>,
    pub verified: bool,
    pub phase: Phase,
    pub grace_deadline: Option<u128>,
    pub finish_deadline: Option<u128>,
    pub signaled: bool,
    pub group_absent: bool,
    pub fault: Option<ControlFault>,
    pub result: Option<Completion>,
}

/// How the operation ended, with the text of an error.
pub type CompletionView = Result<(CancelOutcome, ExitResult), Seq<char>>;

/// The state of the operation.
pub struct CancellationView {
    pub has_handle: bool,
    pub verified: bool,
    pub phase: Phase,
    pub grace_deadline: Option<u128>,
    pub finish_deadline: Option<u128>,
    pub signaled: bool,
    pub group_absent: bool,
    pub fault: Option<ControlFault>,
    pub result: Option<CompletionView>,
}

/// The text of an answer, if it is an error.
pub open spec fn answer_view(answer: Result<bool, String>) -> Result<bool, Seq<char>> {
    match answer {
        Ok(present) => Ok(present),
        Err(error) => Err(error@),
    }
}

/// The text of a completion, if it is an error.
pub open spec fn completion_view(result: Completion) -> CompletionView {
    match result {
        Ok(settled) => Ok(settled),
        Err(error) => Err(error@),
    }
}

/// What the group's handle answers to each signal during one step.
pub struct Answers {
    pub probe: Result<bool, Seq<char>>,
    pub term: Result<bool, Seq<char>>,
    pub kill: Result<bool, Seq<char>>,
}

/// What one step is given: the clock, the command's exit if it was reaped,
/// whether exit and both outputs are final, a wait failure, whether this is the
/// operation's first step, and the handle's answers.
pub struct StepInput {
    pub now: u128,
    pub exit: Option<ExitResult>,
    pub terminal: bool,
    pub failure: Option<Seq<char>>,
    pub first: bool,
    pub answers: Answers,
}

/// The diagnostic for a handle that could not be acquired or verified.
pub open spec fn acquisition_text(error: Seq<char>) -> Seq<char> {
    "workload started; group pidfd acquisition/verification failed: "@ + error
        + "; session retained; cancellation unavailable; do not retry creation"@
}

/// The diagnostic for an operation whose time ran out.
pub open spec fn deadline_text() -> Seq<char> {
    "cancellation unresolved: settlement deadline expired; no further signals will be attempted"@
}

/// The diagnostic for an operation whose handle failed.
pub open spec fn signal_text(error: Seq<char>) -> Seq<char> {
    "cancellation unresolved: group pidfd syscall failed: "@ + error
        + "; no further signals will be attempted"@
}

impl CancellationView {
    /// An operation is running.
    pub open spec fn active(self) -> bool {
        self.phase == Phase::Term || self.phase == Phase::Kill || self.phase == Phase::NoSignal
    }

    /// What holds in every reachable state.
    pub open spec fn valid(self) -> bool {
        &&& self.grace_deadline is Some <==> self.finish_deadline is Some
        &&& self.grace_deadline is Some ==> self.grace_deadline->0 <= self.finish_deadline->0
        &&& self.active() ==> self.finish_deadline is Some && self.fault is None
        &&& self.group_absent ==> !self.has_handle && (self.phase == Phase::NoSignal || self.phase
            == Phase::Complete || self.phase == Phase::Failed)
        &&& self.result is Some <==> self.phase == Phase::Complete || self.phase == Phase::Failed
        &&& match self.phase {
            Phase::Ready => self.has_handle && self.verified && !self.signaled
                && self.finish_deadline is None && self.fault is None,
            Phase::Term | Phase::Kill => self.has_handle,
            Phase::NoSignal => self.group_absent,
            Phase::Complete => self.group_absent && self.result->0 is Ok,
            Phase::Failed => self.fault is Some && self.result->0 is Err,
        }
    }

    /// The operation after a failure that leaves it unresolved.
    pub open spec fn failed(self, fault: ControlFault, error: Seq<char>) -> CancellationView {
        CancellationView {
            phase: Phase::Failed,
            fault: Some(fault),
            result: Some(Err(error)),
            ..self
        }
    }

    /// The operation that begins now, if none has begun.
    pub open spec fn started(self, now: u128, grace: u128, settlement: u128) -> CancellationView {
        if self.phase == Phase::Ready {
            CancellationView {
                phase: Phase::Term,
                grace_deadline: Some((now + grace) as u128),
                finish_deadline: Some((now + grace + settlement) as u128),
                ..self
            }
        } else {
            self
        }
    }

    /// Whether a step gets as far as asking the group.
    pub open spec fn asks(self, input: StepInput) -> bool {
        &&& self.phase == Phase::Term || self.phase == Phase::Kill
        &&& input.failure is None
        &&& input.now < self.finish_deadline->0
    }

    /// Whether the group is found to be gone for good: the leader was reaped
    /// and the group has no member. A living leader can leave its group and
    /// recreate it, so only both together are final.
    pub open spec fn finds_absence(self, input: StepInput) -> bool {
        self.asks(input) && input.answers.probe == Ok::<bool, Seq<char>>(false) && input.exit is Some
    }

    /// Whether a step goes on to signal.
    pub open spec fn goes_on(self, input: StepInput) -> bool {
        self.asks(input) && input.answers.probe is Ok && !self.finds_absence(input)
    }

    /// Whether a step sends TERM.
    pub open spec fn sends_term(self, input: StepInput) -> bool {
        self.goes_on(input) && input.first
    }

    /// Whether a step sends KILL.
    pub open spec fn sends_kill(self, input: StepInput) -> bool {
        &&& self.goes_on(input)
        &&& input.first ==> input.answers.term is Ok
        &&& self.phase == Phase::Term
        &&& input.now >= self.grace_deadline->0
    }

    /// The signals that a step sends, in order.
    pub open spec fn signals(self, input: StepInput) -> Seq<i32> {
        let probe = if self.asks(input) {
            seq![SIGNAL_ZERO]
        } else {
            Seq::empty()
        };
        let term = if self.sends_term(input) {
            seq![SIGTERM]
        } else {
            Seq::empty()
        };
        let kill = if self.sends_kill(input) {
            seq![SIGKILL]
        } else {
            Seq::empty()
        };
        probe + term + kill
    }

    /// Whether a signal sent by a step reached the group.
    pub open spec fn reaches(self, input: StepInput) -> bool {
        ||| self.sends_term(input) && input.answers.term == Ok::<bool, Seq<char>>(true)
        ||| self.sends_kill(input) && input.answers.kill == Ok::<bool, Seq<char>>(true)
    }

    /// The handle's error in a step, if there is one.
    pub open spec fn handle_error(self, input: StepInput) -> Option<Seq<char>> {
        if !self.asks(input) {
            None
        } else if input.answers.probe is Err {
            Some(input.answers.probe->Err_0)
        } else if self.sends_term(input) && input.answers.term is Err {
            Some(input.answers.term->Err_0)
        } else if self.sends_kill(input) && input.answers.kill is Err {
            Some(input.answers.kill->Err_0)
        } else {
            None
        }
    }

    /// The state after the group was asked and signaled.
    pub open spec fn advanced(self, input: StepInput) -> CancellationView {
        if self.finds_absence(input) {
            CancellationView {
                group_absent: true,
                phase: Phase::NoSignal,
                has_handle: false,
                ..self
            }
        } else {
            CancellationView {
                signaled: self.signaled || self.reaches(input),
                phase: if self.sends_kill(input) && input.answers.kill is Ok {
                    Phase::Kill
                } else {
                    self.phase
                },
                ..self
            }
        }
    }

    /// The state after exit and output are final, if the group is gone.
    pub open spec fn settled(self, exit: Option<ExitResult>, terminal: bool) -> CancellationView {
        if self.phase == Phase::NoSignal && terminal {
            CancellationView {
                phase: Phase::Complete,
                result: Some(
                    Ok(
                        (
                            if self.signaled {
                                CancelOutcome::CancelWon
                            } else {
                                CancelOutcome::AlreadyExited
                            },
                            exit->0,
                        ),
                    ),
                ),
                ..self
            }
        } else {
            self
        }
    }

    /// The state after one step.
    pub open spec fn stepped(self, input: StepInput) -> CancellationView {
        if !self.active() {
            self
        } else if input.failure is Some {
            self.failed(ControlFault::Wait, input.failure->0)
        } else if input.now >= self.finish_deadline->0 {
            self.failed(ControlFault::Deadline, deadline_text())
        } else {
            match self.handle_error(input) {
                Some(error) => self.advanced(input).failed(
                    ControlFault::Signal,
                    signal_text(error),
                ),
                None => self.advanced(input).settled(input.exit, input.terminal),
            }
        }
    }

    /// The name of the state in a session fact.
    pub open spec fn state_name(self) -> Seq<char> {
        match self.phase {
            Phase::Ready => "ready"@,
            Phase::Term | Phase::Kill => "running"@,
            Phase::NoSignal => "group_settled"@,
            Phase::Complete => "settled"@,
            Phase::Failed => "failed"@,
        }
    }

    /// The state of control in an output fact.
    pub open spec fn control(self) -> GroupControl {
        match self.phase {
            Phase::Ready => GroupControl::Ready,
            Phase::Term | Phase::Kill | Phase::NoSignal => GroupControl::Running,
            Phase::Complete => GroupControl::Settled,
            Phase::Failed => GroupControl::Unconfirmed(
                match self.fault {
                    Some(fault) => fault,
                    None => ControlFault::Unavailable,
                },
            ),
        }
    }

    /// What a caller is told: the one that began the operation gets its
    /// outcome, every other one learns only that the command has exited.
    pub open spec fn reply(self, initiated: bool) -> Option<CompletionView> {
        match self.result {
            Some(Ok(settled)) => Some(
                Ok(
                    (
                        if initiated {
                            settled.0
                        } else {
                            CancelOutcome::AlreadyExited
                        },
                        settled.1,
                    ),
                ),
            ),
            other => other,
        }
    }
}

/// The state before any request, with the handle that was acquired or the error
/// that kept it from being acquired.
pub open spec fn acquired_view(error: Option<Seq<char>>) -> CancellationView {
    CancellationView {
        has_handle: error is None,
        verified: error is None,
        phase: if error is None {
            Phase::Ready
        } else {
            Phase::Failed
        },
        grace_deadline: None,
        finish_deadline: None,
        signaled: false,
        group_absent: false,
        fault: if error is None {
            None
        } else {
            Some(ControlFault::Unavailable)
        },
        result: match error {
            None => None,
            Some(text) => Some(Err(text)),
        },
    }
}

/// The state after a first probe of an acquired handle.
pub open spec fn verified_view(probe: Result<bool, Seq<char>>) -> CancellationView {
    match probe {
        Ok(_) => acquired_view(None),
        Err(error) => (CancellationView { verified: false, ..acquired_view(None) }).failed(
            ControlFault::Unavailable,
            acquisition_text(error),
        ),
    }
}

impl<H: GroupSignal> View for Cancellation<H> {
    type V = CancellationView;

    open spec fn view(&self) -> CancellationView {
        CancellationView {
            has_handle: self.handle.held() is Some,
            verified: self.verified,
            phase: self.phase,
            grace_deadline: self.grace_deadline,
            finish_deadline: self.finish_deadline,
            signaled: self.signaled,
            group_absent: self.group_absent,
            fault: self.fault,
            result: match self.result {
                None => None,
                Some(result) => Some(completion_view(result)),
            },
        }
    }
}

/// What one step is given, without the handle's answers.
#[derive(Clone, Debug)]
pub struct StepFacts {
    pub now: u128,
    pub exit: Option<ExitResult>,
    pub terminal: bool,
    pub failure: Option<String>,
    pub first: bool,
}

impl StepFacts {
    /// The facts of the step together with the handle's answers.
    pub open spec fn with(self, answers: Answers) -> StepInput {
        StepInput {
            now: self.now,
            exit: self.exit,
            terminal: self.terminal,
            failure: match self.failure {
                Some(error) => Some(error@),
                None => None,
            },
            first: self.first,
            answers,
        }
    }
}

/// The handle's answers, known in advance.
#[derive(Debug)]
pub struct SignalAnswers {
    pub probe: Result<bool, String>,
    pub term: Result<bool, String>,
    pub kill: Result<bool, String>,
}

impl View for SignalAnswers {
    type V = Answers;

    open spec fn view(&self) -> Answers {
        Answers {
            probe: answer_view(self.probe),
            term: answer_view(self.term),
            kill: answer_view(self.kill),
        }
    }
}

impl<H: GroupSignal> Cancellation<H> {
    /// The state after an attempt to acquire the handle.
    pub fn new(handle: Result<H, String>) -> (r: Self)
        ensures
            r@.valid(),
            r@ == acquired_view(
                match handle {
                    Ok(_) => None,
                    Err(error) => Some(error@),
                },
            ),
            r.handle.held() == (match handle {
                Ok(handle) => Some(handle),
                Err(_) => None,
            }),
            r.handle.calls() == Seq::<i32>::empty(),
    {
        match handle {
            Ok(handle) => Cancellation {
                handle: Authority::new(Some(handle)),
                verified: true,
                phase: Phase::Ready,
                grace_deadline: None,
                finish_deadline: None,
                signaled: false,
                group_absent: false,
                fault: None,
                result: None,
            },
            Err(error) => Cancellation {
                handle: Authority::new(None),
                verified: false,
                phase: Phase::Failed,
                grace_deadline: None,
                finish_deadline: None,
                signaled: false,
                group_absent: false,
                fault: Some(ControlFault::Unavailable),
                result: Some(Err(error)),
            },
        }
    }

    fn fail(&mut self, fault: ControlFault, error: String)
        ensures
            final(self)@ == old(self)@.failed(fault, error@),
            final(self).handle == old(self).handle,
    {
        self.phase = Phase::Failed;
        self.fault = Some(fault);
        self.result = Some(Err(error));
    }

    /// Records the first probe of a handle that was acquired.
    pub fn verified_with(&mut self, probe: Result<bool, String>)
        requires
            old(self)@ == acquired_view(None),
        ensures
            final(self)@ == verified_view(answer_view(probe)),
            final(self)@.valid(),
            final(self).handle == old(self).handle,
    {
        if let Err(error) = probe {
            self.verified = false;
            self.fail(
                ControlFault::Unavailable,
                join3(
                    "workload started; group pidfd acquisition/verification failed: ",
                    error.as_str(),
                    "; session retained; cancellation unavailable; do not retry creation",
                ),
            );
        }
    }

    /// The state after the handle was acquired, or not. An acquired handle is
    /// asked for signal zero, once, and for nothing else; its answer decides.
    pub fn verify_acquired(handle: Result<H, String>) -> (r: Self)
        ensures
            r@.valid(),
            match handle {
                Err(error) => {
                    &&& r@ == acquired_view(Some(error@))
                    &&& r.handle.calls() == Seq::<i32>::empty()
                },
                Ok(handle) => {
                    &&& r.handle.held() == Some(handle)
                    &&& r.handle.calls() == seq![SIGNAL_ZERO]
                    &&& exists|probe: Result<bool, String>|
                        {
                            &&& #[trigger] call_ensures(H::signal, (&handle, SIGNAL_ZERO), probe)
                            &&& r@ == verified_view(answer_view(probe))
                        }
                },
            },
    {
        let acquired = handle.is_ok();
        let mut state = Cancellation::new(handle);
        if !acquired {
            return state;
        }
        let probe = state.handle.signal(SIGNAL_ZERO);
        assert(state@ == acquired_view(None));
        assert(state.handle.calls() =~= seq![SIGNAL_ZERO]);
        state.verified_with(probe);
        state
    }

    pub fn output_control(&self) -> (r: GroupControl)
        ensures
            r == self@.control(),
    {
        match self.phase {
            Phase::Ready => GroupControl::Ready,
            Phase::Term | Phase::Kill | Phase::NoSignal => GroupControl::Running,
            Phase::Complete => GroupControl::Settled,
            Phase::Failed => GroupControl::Unconfirmed(
                match self.fault {
                    Some(fault) => fault,
                    None => ControlFault::Unavailable,
                },
            ),
        }
    }

    pub fn group_absent(&self) -> (r: bool)
        ensures
            r == self@.group_absent,
    {
        self.group_absent
    }

    pub fn finish_deadline(&self) -> (r: Option<u128>)
        ensures
            r == self@.finish_deadline,
    {
        self.finish_deadline
    }

    /// What the session says about its control. The capability is named only
    /// when the handle was verified.
    pub fn fact(&self) -> (r: SessionFact)
        ensures
            self@.verified ==> r.capabilities@.len() == 1 && r.capabilities@[0]@
                == GROUP_PIDFD_CAPABILITY@,
            !self@.verified ==> r.capabilities@.len() == 0,
            r.workload_started,
            r.cancel_state@ == self@.state_name(),
            match r.cancel_error {
                Some(error) => self@.result == Some(Err::<(CancelOutcome, ExitResult), Seq<char>>(
                    error@,
                )),
                None => !(self@.result is Some && self@.result->0 is Err),
            },
    {
        let mut capabilities: Vec<String> = Vec::new();
        if self.verified {
            capabilities.push(GROUP_PIDFD_CAPABILITY.to_owned());
        }
        let name = match self.phase {
            Phase::Ready => "ready",
            Phase::Term | Phase::Kill => "running",
            Phase::NoSignal => "group_settled",
            Phase::Complete => "settled",
            Phase::Failed => "failed",
        };
        let cancel_error = match &self.result {
            Some(Err(error)) => Some(error.clone()),
            _ => None,
        };
        SessionFact { capabilities, workload_started: true, cancel_state: name.to_owned(), cancel_error }
    }

    /// Begins the operation. `false` means that it had already begun, or cannot
    /// begin; then nothing changes, its deadlines least of all.
    pub fn start(&mut self, now: u128, grace: u128, settlement: u128) -> (r: bool)
        requires
            old(self)@.valid(),
            now + grace + settlement <= u128::MAX,
        ensures
            r == (old(self)@.phase == Phase::Ready),
            final(self)@ == old(self)@.started(now, grace, settlement),
            final(self)@.valid(),
            final(self).handle == old(self).handle,
            final(self).operation() == old(self).operation().after(
                OperationEvent::Start { now, grace, settlement },
            ),
    {
        if self.phase != Phase::Ready {
            return false;
        }
        self.phase = Phase::Term;
        self.grace_deadline = Some(now + grace);
        self.finish_deadline = Some(now + grace + settlement);
        true
    }

    pub fn active(&self) -> (r: bool)
        ensures
            r == self@.active(),
    {
        self.phase == Phase::Term || self.phase == Phase::Kill || self.phase == Phase::NoSignal
    }

    pub fn finished(&self) -> (r: bool)
        ensures
            r == (self@.result is Some),
    {
        self.result.is_some()
    }

    /// What a caller is told once the operation has ended.
    pub fn reply(&self, initiated: bool) -> (r: Option<Completion>)
        ensures
            match r {
                Some(result) => self@.reply(initiated) == Some(completion_view(result)),
                None => self@.reply(initiated) is None,
            },
    {
        match &self.result {
            None => None,
            Some(Ok((outcome, exit))) => {
                let told = if initiated {
                    *outcome
                } else {
                    CancelOutcome::AlreadyExited
                };
                Some(Ok((told, *exit)))
            },
            Some(Err(error)) => Some(Err(error.clone())),
        }
    }

    /// The part of a step before the group is asked. `false` means that the
    /// step is over.
    fn step_begins(&mut self, now: u128, failure: Option<String>) -> (r: bool)
        requires
            old(self)@.valid(),
        ensures
            r == (old(self)@.active() && failure is None && now < old(self)@.finish_deadline->0),
            r ==> *final(self) == *old(self),
            final(self).handle == old(self).handle,
            !r ==> final(self)@ == (if !old(self)@.active() {
                old(self)@
            } else if failure is Some {
                old(self)@.failed(ControlFault::Wait, failure->0@)
            } else {
                old(self)@.failed(ControlFault::Deadline, deadline_text())
            }),
    {
        if !self.active() {
            return false;
        }
        if let Some(error) = failure {
            self.fail(ControlFault::Wait, error);
            return false;
        }
        let expired = match self.finish_deadline {
            Some(end) => now >= end,
            None => true,
        };
        if expired {
            self.fail(
                ControlFault::Deadline,
                "cancellation unresolved: settlement deadline expired; no further signals will be attempted".to_owned(),
            );
            return false;
        }
        true
    }

    fn signal_failed(&mut self, error: String)
        ensures
            final(self)@ == old(self)@.failed(ControlFault::Signal, signal_text(error@)),
            final(self).handle == old(self).handle,
    {
        let text = join3(
            "cancellation unresolved: group pidfd syscall failed: ",
            error.as_str(),
            "; no further signals will be attempted",
        );
        self.fail(ControlFault::Signal, text);
    }

    fn kill_is_due(&self, now: u128) -> (r: bool)
        ensures
            r == (self@.phase == Phase::Term && self@.grace_deadline is Some && now
                >= self@.grace_deadline->0),
    {
        self.phase == Phase::Term && match self.grace_deadline {
            Some(end) => now >= end,
            None => false,
        }
    }

    /// The group is gone for good. The handle is given up in the same step that
    /// records it, so that no later signal can be sent.
    fn retire(&mut self)
        ensures
            final(self)@ == (CancellationView {
                group_absent: true,
                phase: Phase::NoSignal,
                has_handle: false,
                ..old(self)@
            }),
            final(self).handle.calls() == old(self).handle.calls(),
    {
        self.group_absent = true;
        self.phase = Phase::NoSignal;
        self.handle.retire();
    }

    fn settle(&mut self, exit: Option<ExitResult>, terminal: bool)
        requires
            old(self)@.phase == Phase::NoSignal && terminal ==> exit is Some,
        ensures
            final(self)@ == old(self)@.settled(exit, terminal),
            final(self).handle == old(self).handle,
    {
        if self.phase == Phase::NoSignal && terminal {
            if let Some(actual) = exit {
                let outcome = if self.signaled {
                    CancelOutcome::CancelWon
                } else {
                    CancelOutcome::AlreadyExited
                };
                self.phase = Phase::Complete;
                self.result = Some(Ok((outcome, actual)));
            }
        }
    }

    /// One step whose signals are answered by `answers`. Nothing is asked of the
    /// handle.
    pub fn step_with(&mut self, facts: StepFacts, answers: SignalAnswers)
        requires
            old(self)@.valid(),
            old(self)@.phase == Phase::NoSignal && facts.terminal ==> facts.exit is Some,
        ensures
            final(self)@ == old(self)@.stepped(facts.with(answers@)),
            final(self)@.valid(),
            final(self).handle.calls() == old(self).handle.calls(),
            final(self)@.has_handle ==> final(self).handle == old(self).handle,
    {
        let ghost input = facts.with(answers@);
        let ghost before = self@;
        let StepFacts { now, exit, terminal, failure, first } = facts;
        if !self.step_begins(now, failure) {
            return;
        }
        if self.phase != Phase::NoSignal {
            let present = match answers.probe {
                Ok(present) => present,
                Err(error) => {
                    self.signal_failed(error);
                    return;
                },
            };
            if !present && exit.is_some() {
                self.retire();
            } else {
                if first {
                    match answers.term {
                        Ok(reached) => {
                            self.signaled = self.signaled || reached;
                        },
                        Err(error) => {
                            self.signal_failed(error);
                            return;
                        },
                    }
                }
                if self.kill_is_due(now) {
                    match answers.kill {
                        Ok(reached) => {
                            self.signaled = self.signaled || reached;
                            self.phase = Phase::Kill;
                        },
                        Err(error) => {
                            self.signal_failed(error);
                            return;
                        },
                    }
                }
            }
        }
        assert(self@ == before.advanced(input));
        self.settle(exit, terminal);
    }

    /// Whether the handle can give these answers in a step: each to the signal
    /// that it is asked for.
    pub open spec fn answered(self, input: StepInput, answers: SignalAnswers) -> bool {
        let handle = self.handle.held()->0;
        &&& input.answers == answers@
        &&& self@.asks(input) ==> call_ensures(H::signal, (&handle, SIGNAL_ZERO), answers.probe)
        &&& self@.sends_term(input) ==> call_ensures(H::signal, (&handle, SIGTERM), answers.term)
        &&& self@.sends_kill(input) ==> call_ensures(H::signal, (&handle, SIGKILL), answers.kill)
    }

    /// The operation with the calls that were made on its handle.
    pub open spec fn operation(self) -> Operation {
        Operation { control: self@, calls: self.handle.calls() }
    }

    /// One step of the operation. The handle is asked for exactly the signals of
    /// `CancellationView::signals`, in that order, and its own answers lead to
    /// the state that `step_with` gives for them. Only an actual successful wait
    /// supplies `exit`.
    pub fn step(&mut self, facts: StepFacts)
        requires
            old(self)@.valid(),
            old(self)@.phase == Phase::NoSignal && facts.terminal ==> facts.exit is Some,
        ensures
            exists|answers: SignalAnswers|
                {
                    &&& #[trigger] old(self).answered(facts.with(answers@), answers)
                    &&& final(self).operation() == old(self).operation().after(
                        OperationEvent::Step(facts.with(answers@)),
                    )
                },
            final(self)@.valid(),
            final(self)@.has_handle ==> final(self).handle.held() == old(self).handle.held(),
    {
        let ghost before = *self;
        let mut answers = SignalAnswers { probe: Ok(true), term: Ok(true), kill: Ok(true) };
        if self.phase == Phase::Term || self.phase == Phase::Kill {
            let in_time = match self.finish_deadline {
                Some(end) => facts.now < end,
                None => false,
            };
            if facts.failure.is_none() && in_time {
                let probe = self.handle.signal(SIGNAL_ZERO);
                let goes_on = match &probe {
                    Ok(present) => *present || facts.exit.is_none(),
                    Err(_) => false,
                };
                answers.probe = probe;
                if goes_on {
                    let mut term_failed = false;
                    if facts.first {
                        let term = self.handle.signal(SIGTERM);
                        term_failed = term.is_err();
                        answers.term = term;
                    }
                    if !term_failed && self.kill_is_due(facts.now) {
                        answers.kill = self.handle.signal(SIGKILL);
                    }
                }
            }
        }
        let ghost given = answers;
        let ghost input = facts.with(given@);
        assert(self@ == before@);
        assert(self.handle.calls() =~= before.handle.calls() + before@.signals(input));
        assert(before.answered(input, given));
        self.step_with(facts, answers);
    }
}

/// An operation with the calls that were made on its handle, in order.
#[verifier::ext_equal]
pub struct Operation {
    pub control: CancellationView,
    pub calls: Seq<i32>,
}

/// What happens to an operation.
pub enum OperationEvent {
    /// A request that begins it, or joins it.
    Start { now: u128, grace: u128, settlement: u128 },
    /// A step.
    Step(StepInput),
}

impl Operation {
    /// The operation after an event.
    pub open spec fn after(self, event: OperationEvent) -> Operation {
        match event {
            OperationEvent::Start { now, grace, settlement } => Operation {
                control: self.control.started(now, grace, settlement),
                ..self
            },
            OperationEvent::Step(input) => Operation {
                control: self.control.stepped(input),
                calls: self.calls + self.control.signals(input),
            },
        }
    }
}

/// The operation after a run of events.
pub open spec fn happened(operation: Operation, events: Seq<OperationEvent>) -> Operation
    decreases events.len(),
{
    if events.len() == 0 {
        operation
    } else {
        happened(operation, events.drop_last()).after(events.last())
    }
}

/// How often `signal` occurs among the signals of a list.
pub open spec fn times(signals: Seq<i32>, signal: i32) -> nat
    decreases signals.len(),
{
    if signals.len() == 0 {
        0
    } else {
        times(signals.drop_last(), signal) + (if signals.last() == signal {
            1nat
        } else {
            0
        })
    }
}

impl OperationEvent {
    /// Whether the event is a step that is marked as the first.
    pub open spec fn is_first_step(self) -> bool {
        self matches OperationEvent::Step(input) && input.first
    }

    /// Whether the event can be: output and exit are final only where there is
    /// an actual exit, and no deadline is beyond what the clock can show.
    pub open spec fn possible(self) -> bool {
        match self {
            OperationEvent::Start { now, grace, settlement } => now + grace + settlement
                <= u128::MAX,
            OperationEvent::Step(input) => input.terminal ==> input.exit is Some,
        }
    }
}

/// How many steps of a run are marked as the first.
pub open spec fn first_steps(events: Seq<OperationEvent>) -> nat
    decreases events.len(),
{
    if events.len() == 0 {
        0
    } else {
        first_steps(events.drop_last()) + (if events.last().is_first_step() {
            1nat
        } else {
            0
        })
    }
}

/// Whether every event of a run can be.
pub open spec fn possible(events: Seq<OperationEvent>) -> bool {
    forall|i: int| 0 <= i < events.len() ==> (#[trigger] events[i]).possible()
}

proof fn possible_before(events: Seq<OperationEvent>)
    requires
        possible(events),
        events.len() > 0,
    ensures
        possible(events.drop_last()),
        events.last().possible(),
{
    let before = events.drop_last();
    assert forall|i: int| 0 <= i < before.len() implies (#[trigger] before[i]).possible() by {
        assert(before[i] == events[i]);
    }
    assert(events.last() == events[events.len() - 1]);
}

proof fn times_of_concat(a: Seq<i32>, b: Seq<i32>, signal: i32)
    ensures
        times(a + b, signal) == times(a, signal) + times(b, signal),
    decreases b.len(),
{
    if b.len() == 0 {
        assert(a + b =~= a);
    } else {
        times_of_concat(a, b.drop_last(), signal);
        assert((a + b).drop_last() =~= a + b.drop_last());
    }
}

proof fn times_of_one(sent: i32, signal: i32)
    ensures
        times(seq![sent], signal) == (if sent == signal {
            1nat
        } else {
            0
        }),
{
    reveal_with_fuel(times, 2);
    let one = seq![sent];
    assert(one.drop_last() =~= Seq::<i32>::empty());
    assert(one.last() == sent);
}

proof fn times_of_step(state: CancellationView, input: StepInput)
    ensures
        times(state.signals(input), SIGTERM) == (if state.sends_term(input) {
            1nat
        } else {
            0
        }),
        times(state.signals(input), SIGKILL) == (if state.sends_kill(input) {
            1nat
        } else {
            0
        }),
{
    let probe = if state.asks(input) {
        seq![SIGNAL_ZERO]
    } else {
        Seq::empty()
    };
    let term = if state.sends_term(input) {
        seq![SIGTERM]
    } else {
        Seq::empty()
    };
    let kill = if state.sends_kill(input) {
        seq![SIGKILL]
    } else {
        Seq::empty()
    };
    times_of_concat(probe + term, kill, SIGTERM);
    times_of_concat(probe, term, SIGTERM);
    times_of_concat(probe + term, kill, SIGKILL);
    times_of_concat(probe, term, SIGKILL);
    times_of_one(SIGNAL_ZERO, SIGTERM);
    times_of_one(SIGNAL_ZERO, SIGKILL);
    times_of_one(SIGTERM, SIGTERM);
    times_of_one(SIGTERM, SIGKILL);
    times_of_one(SIGKILL, SIGTERM);
    times_of_one(SIGKILL, SIGKILL);
}

/// Every step keeps what holds in every reachable state.
pub proof fn steps_stay_valid(state: CancellationView, input: StepInput)
    requires
        state.valid(),
        input.terminal ==> input.exit is Some,
    ensures
        state.stepped(input).valid(),
{
}

/// What holds in every reachable state holds after every run of events.
pub proof fn runs_stay_valid(operation: Operation, events: Seq<OperationEvent>)
    requires
        operation.control.valid(),
        possible(events),
    ensures
        happened(operation, events).control.valid(),
    decreases events.len(),
{
    if events.len() > 0 {
        possible_before(events);
        runs_stay_valid(operation, events.drop_last());
        let mid = happened(operation, events.drop_last());
        if let OperationEvent::Step(input) = events.last() {
            steps_stay_valid(mid.control, input);
        }
    }
}

proof fn times_after(operation: Operation, event: OperationEvent)
    ensures
        times(operation.after(event).calls, SIGTERM) == times(operation.calls, SIGTERM) + (
        if event matches OperationEvent::Step(input) && operation.control.sends_term(input) {
            1nat
        } else {
            0
        }),
        times(operation.after(event).calls, SIGKILL) == times(operation.calls, SIGKILL) + (
        if event matches OperationEvent::Step(input) && operation.control.sends_kill(input) {
            1nat
        } else {
            0
        }),
{
    if let OperationEvent::Step(input) = event {
        let sent = operation.control.signals(input);
        times_of_concat(operation.calls, sent, SIGTERM);
        times_of_concat(operation.calls, sent, SIGKILL);
        times_of_step(operation.control, input);
    }
}

/// The group's handle is asked for KILL at most once in an operation, however
/// many steps it takes, however often it is started and whatever the group
/// answers; and it is asked for TERM at most once for each step that is marked
/// as the first.
pub proof fn at_most_one_kill(operation: Operation, events: Seq<OperationEvent>)
    requires
        operation.control.valid(),
        possible(events),
    ensures
        ({
            let later = happened(operation, events);
            let kills = times(later.calls, SIGKILL) - times(operation.calls, SIGKILL);
            &&& 0 <= kills <= 1
            &&& kills == 1 ==> later.control.phase != Phase::Ready && later.control.phase
                != Phase::Term
            &&& times(operation.calls, SIGTERM) <= times(later.calls, SIGTERM) <= times(
                operation.calls,
                SIGTERM,
            ) + first_steps(events)
        }),
    decreases events.len(),
{
    if events.len() > 0 {
        let before = events.drop_last();
        possible_before(events);
        at_most_one_kill(operation, before);
        runs_stay_valid(operation, before);
        let mid = happened(operation, before);
        times_after(mid, events.last());
        assert(happened(operation, events) == mid.after(events.last()));
        if let OperationEvent::Step(input) = events.last() {
            assert(mid.control.sends_term(input) ==> input.first);
        }
    }
}

/// The group's handle is asked for TERM at most once in an operation of which at
/// most one step is marked as the first.
pub proof fn at_most_one_term(operation: Operation, events: Seq<OperationEvent>)
    requires
        operation.control.valid(),
        possible(events),
        first_steps(events) <= 1,
    ensures
        times(happened(operation, events).calls, SIGTERM) <= times(operation.calls, SIGTERM) + 1,
{
    at_most_one_kill(operation, events);
}

/// The group's handle is asked for KILL only in a step, and only once the grace
/// period that began with the operation is over.
pub proof fn kill_waits_for_grace(
    operation: Operation,
    now: u128,
    grace: u128,
    settlement: u128,
    events: Seq<OperationEvent>,
    event: OperationEvent,
)
    requires
        operation.control.valid(),
        operation.control.phase == Phase::Ready,
        (OperationEvent::Start { now, grace, settlement }).possible(),
        possible(events),
    ensures
        ({
            let begun = operation.after(OperationEvent::Start { now, grace, settlement });
            let mid = happened(begun, events);
            times(mid.after(event).calls, SIGKILL) > times(mid.calls, SIGKILL) ==> {
                &&& event matches OperationEvent::Step(input)
                &&& input.now >= now + grace
            }
        }),
{
    let begun = operation.after(OperationEvent::Start { now, grace, settlement });
    deadlines_are_fixed(begun, events);
    times_after(happened(begun, events), event);
}

/// Nothing is asked of the group's handle once the group is gone for good or the
/// operation has ended, whatever steps and requests follow: the absence stays,
/// and so does the result.
pub proof fn settled_operations_are_silent(operation: Operation, events: Seq<OperationEvent>)
    requires
        operation.control.valid(),
        operation.control.group_absent || operation.control.result is Some,
        possible(events),
    ensures
        happened(operation, events).calls == operation.calls,
        operation.control.group_absent ==> happened(operation, events).control.group_absent,
        operation.control.result is Some ==> happened(operation, events).control
            == operation.control,
    decreases events.len(),
{
    if events.len() > 0 {
        let before = events.drop_last();
        possible_before(events);
        settled_operations_are_silent(operation, before);
        runs_stay_valid(operation, before);
        let mid = happened(operation, before);
        if let OperationEvent::Step(input) = events.last() {
            absence_is_final(mid.control, input);
            assert(mid.calls + mid.control.signals(input) =~= mid.calls);
        }
    }
}

/// Group absence is recorded only when the leader was reaped and the group had
/// no member. It is permanent, and no signal is sent once it holds.
pub proof fn absence_is_final(state: CancellationView, input: StepInput)
    requires
        state.valid(),
    ensures
        !state.group_absent && state.stepped(input).group_absent ==> input.exit is Some
            && input.answers.probe == Ok::<bool, Seq<char>>(false),
        state.group_absent ==> state.stepped(input).group_absent,
        state.group_absent ==> state.signals(input) =~= Seq::<i32>::empty(),
{
}

/// A finished operation sends nothing more, is never started again and never
/// changes its result.
pub proof fn finished_is_final(
    state: CancellationView,
    input: StepInput,
    now: u128,
    grace: u128,
    settlement: u128,
)
    requires
        state.valid(),
        state.result is Some,
    ensures
        state.stepped(input) == state,
        state.started(now, grace, settlement) == state,
        state.signals(input) =~= Seq::<i32>::empty(),
{
}

/// The deadlines are fixed by the start of the operation: neither steps nor
/// later requests move them.
pub proof fn deadlines_are_fixed(operation: Operation, events: Seq<OperationEvent>)
    requires
        operation.control.valid(),
        operation.control.finish_deadline is Some,
        possible(events),
    ensures
        happened(operation, events).control.finish_deadline == operation.control.finish_deadline,
        happened(operation, events).control.grace_deadline == operation.control.grace_deadline,
    decreases events.len(),
{
    if events.len() > 0 {
        possible_before(events);
        deadlines_are_fixed(operation, events.drop_last());
        runs_stay_valid(operation, events.drop_last());
    }
}

/// A step that completes the operation keeps the actual exit, whatever the
/// outcome, and claims the cancellation only when a signal reached the group.
pub proof fn exit_is_never_relabeled(state: CancellationView, input: StepInput)
    requires
        state.valid(),
        input.terminal ==> input.exit is Some,
        state.active(),
        state.stepped(input).phase == Phase::Complete,
    ensures
        state.stepped(input).result->0->Ok_0.1 == input.exit->0,
        state.stepped(input).result->0->Ok_0.0 == CancelOutcome::CancelWon <==> state.signaled
            || state.reaches(input),
        state.stepped(input).reply(false)->0->Ok_0 == (
            CancelOutcome::AlreadyExited,
            input.exit->0,
        ),
{
}

/// Errors and expiry are retained as errors; they never become an exit or an
/// absence, and the handle is kept. After a failed wait and after the deadline
/// nothing is asked of it.
pub proof fn failures_prove_nothing(state: CancellationView, input: StepInput)
    requires
        state.valid(),
        state.active(),
        input.failure is Some || input.now >= state.finish_deadline->0 || state.handle_error(
            input,
        ) is Some,
    ensures
        state.stepped(input).phase == Phase::Failed,
        state.stepped(input).result->0 is Err,
        !state.stepped(input).active(),
        state.stepped(input).group_absent == state.group_absent,
        state.stepped(input).has_handle == state.has_handle,
        input.failure is Some || input.now >= state.finish_deadline->0 ==> state.signals(input)
            =~= Seq::<i32>::empty(),
        input.failure is Some ==> state.stepped(input).result->0->Err_0 == input.failure->0,
{
}

/// The first request begins the operation and fixes its deadlines: the grace
/// period from now on, and the settlement period behind it. Every later request
/// changes nothing.
pub proof fn the_first_request_fixes_the_deadlines<H: GroupSignal>(
    state: &mut Cancellation<H>,
    now: u128,
    grace: u128,
    settlement: u128,
    r: bool,
)
    requires
        old(state)@.valid(),
        now + grace + settlement <= u128::MAX,
        call_ensures(Cancellation::<H>::start, (state, now, grace, settlement), r),
    ensures
        r <==> old(state).phase is Ready,
        r ==> final(state).phase is Term && final(state).grace_deadline == Some(
            (now + grace) as u128,
        ) && final(state).finish_deadline == Some((now + grace + settlement) as u128),
        !r ==> final(state).phase == old(state).phase && final(state).grace_deadline == old(state).grace_deadline && final(state).finish_deadline == old(state).finish_deadline,
        final(state).signaled == old(state).signaled,
        final(state).group_absent == old(state).group_absent,
        final(state).verified == old(state).verified,
        final(state).result is Some <==> old(state).result is Some,
        final(state).handle.calls() == old(state).handle.calls(),
        final(state).handle.held() == old(state).handle.held(),
{
    assert(final(state)@ == old(state)@.started(now, grace, settlement));
}

/// A step asks the group's handle for nothing unless an operation is running that
/// has not found the group gone, nothing failed and time is left. Otherwise it
/// first asks whether the group exists. TERM goes only with the first step, and
/// KILL only once the grace period is over and not after another KILL.
pub proof fn steps_signal_in_order<H: GroupSignal>(state: &mut Cancellation<H>, facts: StepFacts)
    requires
        old(state)@.valid(),
        old(state).phase is NoSignal && facts.terminal ==> facts.exit is Some,
        call_ensures(Cancellation::<H>::step, (state, facts), ()),
    ensures
        ({
            let before = old(state).handle.calls();
            let after = final(state).handle.calls();
            let asks = (old(state).phase is Term || old(state).phase is Kill) && facts.failure
                is None && facts.now < old(state).finish_deadline->0;
            let due = old(state).phase is Term && facts.now >= old(state).grace_deadline->0;
            &&& !asks ==> after == before
            &&& asks ==> {
                ||| after == before + seq![0i32]
                ||| after == before + seq![0i32, 15] && facts.first
                ||| after == before + seq![0i32, 9] && due && !facts.first
                ||| after == before + seq![0i32, 15, 9] && due && facts.first
            }
            &&& after == before + seq![0i32] && asks && facts.first ==> final(state).phase is Failed
                || final(state).group_absent
            &&& after == before + seq![0i32] && asks && due ==> final(state).phase is Failed
                || final(state).group_absent
            &&& after == before + seq![0i32, 15] && asks && due ==> final(state).phase is Failed
        }),
{
    let answers = choose|answers: SignalAnswers|
        {
            &&& #[trigger] old(state).answered(facts.with(answers@), answers)
            &&& final(state).operation() == old(state).operation().after(
                OperationEvent::Step(facts.with(answers@)),
            )
        };
    let input = facts.with(answers@);
    let sent = old(state)@.signals(input);
    let before = old(state).handle.calls();
    let after = final(state).handle.calls();
    assert(after == before + sent);
    let asks = old(state)@.asks(input);
    if !asks {
        assert(sent =~= Seq::<i32>::empty());
        assert(after =~= before);
    } else {
        assert(after[before.len() as int] == 0);
        if old(state)@.sends_term(input) {
            if old(state)@.sends_kill(input) {
                assert(sent =~= seq![0i32, 15, 9]);
            } else {
                assert(sent =~= seq![0i32, 15]);
            }
        } else {
            if old(state)@.sends_kill(input) {
                assert(sent =~= seq![0i32, 9]);
            } else {
                assert(sent =~= seq![0i32]);
            }
        }
        assert(after.len() == before.len() + sent.len());
        if sent.len() != 1 {
            assert(after != before + seq![0i32]);
        }
        if after == before + seq![0i32, 15] {
            assert(after[before.len() as int + 1] == 15);
            assert(sent[1] == 15);
        }
    }
}

/// The group counts as gone only when the leader's exit is known, and then no
/// signal goes with that step. The operation completes only once the group is
/// gone and exit and output are final, and then at once, with the command's own
/// exit; it was cancelled exactly if a signal reached the group.
pub proof fn operations_complete_with_the_exit<H: GroupSignal>(
    state: &mut Cancellation<H>,
    facts: StepFacts,
)
    requires
        old(state)@.valid(),
        old(state).phase is NoSignal && facts.terminal ==> facts.exit is Some,
        facts.terminal ==> facts.exit is Some,
        call_ensures(Cancellation::<H>::step, (state, facts), ()),
    ensures
        !old(state).group_absent && final(state).group_absent ==> facts.exit is Some && final(state).signaled == old(state).signaled,
        old(state).group_absent ==> final(state).group_absent,
        old(state).signaled ==> final(state).signaled,
        final(state).phase is NoSignal ==> !facts.terminal && final(state).group_absent,
        old(state).result is None ==> (final(state).phase is Complete ==> {
            &&& final(state).group_absent
            &&& facts.terminal
            &&& final(state).result matches Some(Ok(settled))
            &&& Some(settled.1) == facts.exit
            &&& settled.0 is CancelWon <==> final(state).signaled
        }),
        old(state).result is None ==> (final(state).result is Some <==> final(state).phase is Complete
            || final(state).phase is Failed),
        final(state).grace_deadline == old(state).grace_deadline,
        final(state).finish_deadline == old(state).finish_deadline,
        final(state).verified == old(state).verified,
        final(state).group_absent && final(state).phase !is Failed ==> final(state).handle.held() is None,
{
    let answers = choose|answers: SignalAnswers|
        {
            &&& #[trigger] old(state).answered(facts.with(answers@), answers)
            &&& final(state).operation() == old(state).operation().after(
                OperationEvent::Step(facts.with(answers@)),
            )
        };
    assert(final(state)@ == old(state)@.stepped(facts.with(answers@)));
    assert(final(state)@.valid());
}

/// A failed wait and the passing of the deadline end a running operation as
/// failures, with their own words; nothing happens to one that is not running.
pub proof fn failures_end_operations<H: GroupSignal>(state: &mut Cancellation<H>, facts: StepFacts)
    requires
        old(state)@.valid(),
        old(state).phase is NoSignal && facts.terminal ==> facts.exit is Some,
        call_ensures(Cancellation::<H>::step, (state, facts), ()),
    ensures
        ({
            let running = old(state).phase is Term || old(state).phase is Kill || old(state).phase
                is NoSignal;
            let late = facts.now >= old(state).finish_deadline->0;
            &&& !running ==> final(state).phase == old(state).phase
                && final(state).fault == old(state).fault
                && final(state).signaled == old(state).signaled
            &&& running && facts.failure is Some ==> {
                &&& final(state).phase is Failed
                &&& final(state).fault == Some(ControlFault::Wait)
                &&& final(state).result matches Some(Err(error)) && error@ == facts.failure->0@
                &&& final(state).group_absent == old(state).group_absent
            }
            &&& running && facts.failure is None && late ==> {
                &&& final(state).phase is Failed
                &&& final(state).fault == Some(ControlFault::Deadline)
                &&& final(state).group_absent == old(state).group_absent
            }
            &&& running && facts.failure is None && !late && final(state).phase is Failed
                ==> final(state).fault == Some(ControlFault::Signal)
            &&& old(state).phase is NoSignal && facts.failure is None && !late
                ==> final(state).phase !is Failed
            &&& old(state).phase is NoSignal && facts.failure is None && !late && facts.terminal
                ==> final(state).phase is Complete
        }),
{
    let answers = choose|answers: SignalAnswers|
        {
            &&& #[trigger] old(state).answered(facts.with(answers@), answers)
            &&& final(state).operation() == old(state).operation().after(
                OperationEvent::Step(facts.with(answers@)),
            )
        };
    assert(final(state)@ == old(state)@.stepped(facts.with(answers@)));
}

/// What the group answers decides a step: an error of the handle fails it, a group
/// without members whose leader was reaped is gone, and otherwise a signal counts
/// exactly if it reached the group.
pub proof fn answers_decide_steps<H: GroupSignal>(
    state: &mut Cancellation<H>,
    facts: StepFacts,
    answers: SignalAnswers,
)
    requires
        old(state)@.valid(),
        old(state).phase is Term || old(state).phase is Kill,
        facts.failure is None,
        facts.now < old(state).finish_deadline->0,
        facts.terminal ==> facts.exit is Some,
        call_ensures(Cancellation::<H>::step_with, (state, facts, answers), ()),
    ensures
        ({
            let gone = answers.probe == Ok::<bool, String>(false) && facts.exit is Some;
            let signals = answers.probe is Ok && !gone;
            let term_fails = facts.first && answers.term is Err;
            let kills = signals && !term_fails && old(state).phase is Term && facts.now >= old(state).grace_deadline->0;
            &&& final(state).group_absent <==> gone
            &&& final(state).phase is Failed <==> answers.probe is Err || (signals && term_fails)
                || (kills && answers.kill is Err)
            &&& final(state).phase is Failed ==> final(state).fault == Some(ControlFault::Signal)
            &&& final(state).signaled <==> old(state).signaled || (signals && facts.first
                && answers.term == Ok::<bool, String>(true)) || (kills && answers.kill == Ok::<
                bool,
                String,
            >(true))
            &&& final(state).phase is Kill <==> signals && final(state).phase !is Failed
                && (old(state).phase is Kill || kills)
            &&& final(state).phase is Complete <==> gone && facts.terminal
            &&& gone && !facts.terminal ==> final(state).phase is NoSignal
            &&& signals && !(final(state).phase is Failed) && !kills
                ==> final(state).phase == old(state).phase
        }),
{
    assert(final(state)@ == old(state)@.stepped(facts.with(answers@)));
}

/// Control is available exactly if the handle was acquired and answered its first
/// question; nothing else was asked of it. A failure keeps its reason.
pub proof fn control_is_verified_by_one_question<H: GroupSignal>(
    handle: Result<H, String>,
    state: Cancellation<H>,
)
    requires
        call_ensures(Cancellation::<H>::verify_acquired, (handle,), state),
    ensures
        state.verified <==> state.phase is Ready,
        state.phase is Ready || state.phase is Failed,
        state.result is Some <==> state.phase is Failed,
        !state.signaled && !state.group_absent,
        state.grace_deadline is None && state.finish_deadline is None,
        handle matches Err(error) ==> {
            &&& state.phase is Failed
            &&& state.handle.calls().len() == 0
            &&& state.result matches Some(Err(told)) && told@ == error@
        },
        handle matches Ok(held) ==> state.handle.calls() == seq![0i32] && state.handle.held()
            == Some(held),
{
    if let Ok(held) = handle {
        let probe = choose|probe: Result<bool, String>|
            {
                &&& #[trigger] call_ensures(H::signal, (&held, SIGNAL_ZERO), probe)
                &&& state@ == verified_view(answer_view(probe))
            };
        assert(state@ == verified_view(answer_view(probe)));
    }
}

/// A session names the capability only if its control was verified, says how far
/// its operation is, and tells an error exactly if the operation failed, in its
/// words.
pub proof fn facts_tell_the_state_of_control<H: GroupSignal>(
    state: Cancellation<H>,
    fact: SessionFact,
)
    requires
        call_ensures(Cancellation::<H>::fact, (&state,), fact),
    ensures
        state.verified ==> fact.capabilities@.len() == 1 && fact.capabilities@[0]@
            == "group-pidfd-cancel-v1"@,
        !state.verified ==> fact.capabilities@.len() == 0,
        fact.workload_started,
        state.phase is Ready ==> fact.cancel_state@ == "ready"@,
        state.phase is Term || state.phase is Kill ==> fact.cancel_state@ == "running"@,
        state.phase is NoSignal ==> fact.cancel_state@ == "group_settled"@,
        state.phase is Complete ==> fact.cancel_state@ == "settled"@,
        state.phase is Failed ==> fact.cancel_state@ == "failed"@,
        state.result matches Some(Err(error)) ==> (fact.cancel_error matches Some(told) && told@
            == error@),
        !(state.result matches Some(Err(_))) ==> fact.cancel_error is None,
{
}

/// Output facts call control running from the first request until the operation
/// has a result, settled only if it completed, and unconfirmed with its fault if
/// it failed.
pub proof fn control_is_told_truly<H: GroupSignal>(
    state: Cancellation<H>,
    r: GroupControl,
    active: bool,
    finished: bool,
)
    requires
        state@.valid(),
        call_ensures(Cancellation::<H>::output_control, (&state,), r),
        call_ensures(Cancellation::<H>::active, (&state,), active),
        call_ensures(Cancellation::<H>::finished, (&state,), finished),
    ensures
        r is Ready <==> state.phase is Ready,
        r is Running <==> active,
        r is Settled <==> state.phase is Complete,
        r is Unconfirmed <==> state.phase is Failed,
        r matches GroupControl::Unconfirmed(fault) ==> Some(fault) == state.fault,
        active <==> state.phase is Term || state.phase is Kill || state.phase is NoSignal,
        finished <==> state.result is Some,
        finished <==> state.phase is Complete || state.phase is Failed,
        !(active && finished),
{
}

/// Whoever began the operation learns its outcome; whoever joined it learns only
/// that the command has exited; and both learn the same exit, or the same error.
pub proof fn callers_learn_the_same_exit<H: GroupSignal>(
    state: Cancellation<H>,
    own: Option<Completion>,
    joined: Option<Completion>,
)
    requires
        call_ensures(Cancellation::<H>::reply, (&state, true), own),
        call_ensures(Cancellation::<H>::reply, (&state, false), joined),
    ensures
        own is Some <==> state.result is Some,
        joined is Some <==> state.result is Some,
        state.result matches Some(Ok(settled)) ==> {
            &&& own == Some(Ok::<(CancelOutcome, ExitResult), String>(settled))
            &&& joined matches Some(Ok(told))
            &&& told.1 == settled.1
            &&& told.0 is AlreadyExited
        },
        state.result matches Some(Err(error)) ==> {
            &&& own matches Some(Err(told))
            &&& told@ == error@
            &&& joined matches Some(Err(other))
            &&& other@ == error@
        },
{
    assert(own is Some ==> state@.reply(true) == Some(completion_view(own->0)));
    assert(joined is Some ==> state@.reply(false) == Some(completion_view(joined->0)));
}

/// The first question to an acquired handle decides whether control is available;
/// an error makes it fail, with that error in its words.
pub proof fn first_questions_decide<H: GroupSignal>(
    state: &mut Cancellation<H>,
    probe: Result<bool, String>,
)
    requires
        old(state)@ == acquired_view(None),
        call_ensures(Cancellation::<H>::verified_with, (state, probe), ()),
    ensures
        probe is Ok ==> final(state).verified && final(state).phase is Ready && final(state).result is None,
        probe matches Err(error) ==> {
            &&& !final(state).verified
            &&& final(state).phase is Failed
            &&& final(state).fault == Some(ControlFault::Unavailable)
            &&& final(state).result matches Some(Err(told)) && told@
                == "workload started; group pidfd acquisition/verification failed: "@ + error@
                + "; session retained; cancellation unavailable; do not retry creation"@
        },
        final(state).handle.calls() == old(state).handle.calls(),
{
    assert(final(state)@ == verified_view(answer_view(probe)));
}

/// A step that fails for the handle or for its time says so, and that no more
/// signals follow.
pub proof fn failed_steps_say_why<H: GroupSignal>(
    state: &mut Cancellation<H>,
    facts: StepFacts,
    answers: SignalAnswers,
)
    requires
        old(state)@.valid(),
        old(state).phase is Term || old(state).phase is Kill,
        facts.failure is None,
        facts.terminal ==> facts.exit is Some,
        call_ensures(Cancellation::<H>::step_with, (state, facts, answers), ()),
    ensures
        facts.now >= old(state).finish_deadline->0 ==> (final(state).result matches Some(Err(told))
            && told@
            == "cancellation unresolved: settlement deadline expired; no further signals will be attempted"@),
        facts.now < old(state).finish_deadline->0 ==> (answers.probe matches Err(error) ==> (final(state).result matches Some(Err(told)) && told@
            == "cancellation unresolved: group pidfd syscall failed: "@ + error@
            + "; no further signals will be attempted"@)),
{
    assert(final(state)@ == old(state)@.stepped(facts.with(answers@)));
}

/// Control begins with what was acquired: with a handle it is verified and ready,
/// without one it has failed, and nothing was asked of the handle.
pub proof fn control_begins_with_what_was_acquired<H: GroupSignal>(
    handle: Result<H, String>,
    r: Cancellation<H>,
    absent: bool,
    deadline: Option<u128>,
)
    requires
        call_ensures(Cancellation::<H>::new, (handle,), r),
        call_ensures(Cancellation::<H>::group_absent, (&r,), absent),
        call_ensures(Cancellation::<H>::finish_deadline, (&r,), deadline),
    ensures
        r.verified <==> handle is Ok,
        handle is Ok <==> r.handle.held() is Some,
        handle matches Ok(given) ==> r.handle.held() == Some(given),
        r.handle.calls().len() == 0,
        handle is Ok ==> r.phase is Ready,
        r.grace_deadline is None,
        deadline is None,
        absent == r.group_absent,
        !absent,
{
    assert(r@.valid());
}

} // verus!
