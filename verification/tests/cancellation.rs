use std::cell::RefCell;
use std::rc::Rc;

use pipekeep::cancellation::{Cancellation, Phase, SignalAnswers, StepFacts};
use pipekeep::group_pidfd::{GroupSignal, SIGKILL, SIGTERM};
use pipekeep::output::{ControlFault, GroupControl};
use pipekeep::protocol::{CancelOutcome, ExitResult};

const SECOND: u128 = 1_000_000_000;
const MILLI: u128 = 1_000_000;

struct Kernel {
    calls: Vec<i32>,
    exists: bool,
    error: Option<i32>,
    drops: usize,
    vanish_on_term: bool,
}

fn kernel(exists: bool, error: Option<i32>) -> Rc<RefCell<Kernel>> {
    Rc::new(RefCell::new(Kernel {
        calls: Vec::new(),
        exists,
        error,
        drops: 0,
        vanish_on_term: false,
    }))
}

struct Handle(Rc<RefCell<Kernel>>);

impl GroupSignal for Handle {
    fn signal(&self, signal: i32) -> Result<bool, String> {
        let mut k = self.0.borrow_mut();
        assert_eq!(k.drops, 0, "signal after handle retirement");
        k.calls.push(signal);
        if signal == SIGTERM && k.vanish_on_term {
            k.exists = false;
        }
        match k.error {
            Some(e) => Err(format!("os error {e}")),
            None => Ok(k.exists),
        }
    }
}

impl Drop for Handle {
    fn drop(&mut self) {
        self.0.borrow_mut().drops += 1;
    }
}

fn fixture() -> (Cancellation<Handle>, Rc<RefCell<Kernel>>, u128) {
    let kernel = kernel(true, None);
    let mut c = Cancellation::new(Ok(Handle(kernel.clone())));
    let now = 7 * SECOND;
    assert!(c.start(now, SECOND, 2 * SECOND));
    (c, kernel, now)
}

fn exit23() -> Option<ExitResult> {
    Some(ExitResult {
        code: Some(23),
        signal: None,
    })
}

fn step(
    c: &mut Cancellation<Handle>,
    now: u128,
    exit: Option<ExitResult>,
    terminal: bool,
    failure: Option<String>,
    first: bool,
) {
    c.step(StepFacts {
        now,
        exit,
        terminal,
        failure,
        first,
    })
}

#[test]
fn one_deadline_zombies_reap_and_permanent_retirement() {
    let (mut c, k, now) = fixture();
    step(&mut c, now, exit23(), true, None, true);
    assert!(!c.start(now + 900 * MILLI, 99 * SECOND, 99 * SECOND));
    step(&mut c, now + SECOND, exit23(), true, None, false);
    assert!(
        c.result.is_none(),
        "zombie-only signal success is not settlement"
    );
    step(&mut c, now + 1500 * MILLI, exit23(), true, None, false);
    k.borrow_mut().exists = false; // exact last-member reap
    step(&mut c, now + 2 * SECOND, exit23(), true, None, false);
    let (outcome, exit) = c.result.as_ref().unwrap().as_ref().unwrap();
    assert_eq!(*outcome, CancelOutcome::CancelWon);
    assert_eq!(exit.code, Some(23));
    let calls = k.borrow().calls.clone();
    assert_eq!(calls.iter().filter(|&&s| s == SIGTERM).count(), 1);
    assert_eq!(calls.iter().filter(|&&s| s == SIGKILL).count(), 1);
    assert_eq!(k.borrow().drops, 1);
    step(&mut c, now + 5 * SECOND, exit23(), true, None, true);
    assert!(!c.start(now, 0, 0));
    assert_eq!(calls, k.borrow().calls);
}

#[test]
fn living_leader_can_recreate_absent_group() {
    let (mut c, k, now) = fixture();
    k.borrow_mut().exists = false;
    step(&mut c, now, None, false, None, true);
    assert_eq!(k.borrow().drops, 0);
    assert!(c.result.is_none());
    k.borrow_mut().exists = true;
    step(&mut c, now + SECOND, None, false, None, false);
    assert!(k.borrow().calls.contains(&SIGKILL));
    k.borrow_mut().exists = false;
    step(&mut c, now + 2 * SECOND, exit23(), true, None, false);
    assert!(c.result.as_ref().unwrap().is_ok());
}

#[test]
fn absent_before_signal_preserves_natural_exit_and_waits_for_output() {
    let (mut c, k, now) = fixture();
    k.borrow_mut().exists = false;
    step(&mut c, now, exit23(), false, None, true);
    assert!(c.result.is_none());
    assert_eq!(c.phase, Phase::NoSignal);
    assert_eq!(k.borrow().drops, 1);
    step(&mut c, now, exit23(), true, None, false);
    assert_eq!(
        c.result.as_ref().unwrap().as_ref().unwrap().0,
        CancelOutcome::AlreadyExited
    );
    assert_eq!(k.borrow().calls, [0]);
}

#[test]
fn syscall_errors_and_failed_acquisition_never_mean_absence_or_retry() {
    // ENOSYS, EINVAL, EPERM, EMFILE, EIO
    for error in [38, 22, 1, 24, 5] {
        let (mut c, k, now) = fixture();
        k.borrow_mut().error = Some(error);
        step(&mut c, now, exit23(), true, None, true);
        assert!(c.result.as_ref().unwrap().is_err());
        assert_eq!(k.borrow().drops, 0);
        assert!(!c.start(now, 0, 0));
        step(&mut c, now, exit23(), true, None, true);
        assert_eq!(k.borrow().calls, [0]);
        let mut failed: Cancellation<Handle> =
            Cancellation::new(Err(format!("workload started: {error}")));
        assert!(failed.fact().capabilities.is_empty());
        assert!(!failed.start(now, 0, 0));
        assert!(failed.fact().workload_started);
    }
}

#[test]
fn group_disappears_between_zero_probe_and_signal() {
    let (mut c, k, now) = fixture();
    k.borrow_mut().vanish_on_term = true;
    step(&mut c, now, exit23(), true, None, true);
    assert!(c.result.is_none());
    step(&mut c, now, exit23(), true, None, false);
    assert_eq!(
        c.result.as_ref().unwrap().as_ref().unwrap().0,
        CancelOutcome::AlreadyExited
    );
    assert_eq!(k.borrow().calls, [0, SIGTERM, 0]);
}

#[test]
fn per_child_verification_error_retains_handle_without_advertising_capability() {
    let k = kernel(false, Some(1));
    let mut c = Cancellation::verify_acquired(Ok(Handle(k.clone())));
    assert!(c.fact().capabilities.is_empty());
    assert!(c.fact().cancel_error.unwrap().contains("workload started"));
    assert_eq!(k.borrow().drops, 0);
    assert!(!c.start(SECOND, 0, 0));
    drop(c);
    assert_eq!(k.borrow().drops, 1);
}

#[test]
fn wait_failure_and_timeout_are_retained_errors_not_exits() {
    let (mut c, k, now) = fixture();
    step(&mut c, now, None, false, Some("wait failed".into()), true);
    assert!(c.result.as_ref().unwrap().is_err());
    assert!(k.borrow().calls.is_empty());
    let (mut c, _, now) = fixture();
    step(&mut c, now, exit23(), true, None, true);
    step(&mut c, now + 3 * SECOND, exit23(), true, None, false);
    assert!(c
        .result
        .as_ref()
        .unwrap()
        .as_ref()
        .unwrap_err()
        .contains("deadline expired"));
}

#[test]
fn steps_ask_the_handle_for_their_signals_and_no_others() {
    let (mut c, k, now) = fixture();
    step(&mut c, now, None, false, None, true);
    assert_eq!(k.borrow().calls, [0, SIGTERM]);
    step(&mut c, now + SECOND - 1, None, false, None, false);
    assert_eq!(k.borrow().calls, [0, SIGTERM, 0]);
    step(&mut c, now + SECOND, None, false, None, false);
    assert_eq!(k.borrow().calls, [0, SIGTERM, 0, 0, SIGKILL]);
    step(&mut c, now + SECOND + 1, None, false, None, false);
    assert_eq!(k.borrow().calls, [0, SIGTERM, 0, 0, SIGKILL, 0]);
    assert_eq!(c.phase, Phase::Kill);
    assert!(!c.start(now + SECOND + 1, SECOND, SECOND));
    step(&mut c, now + 3 * SECOND, None, false, None, false);
    assert_eq!(k.borrow().calls, [0, SIGTERM, 0, 0, SIGKILL, 0]);
    assert_eq!(c.output_control(), GroupControl::Unconfirmed(ControlFault::Deadline));
}

#[test]
fn an_acquired_handle_is_probed_once() {
    let k = kernel(true, None);
    let c = Cancellation::verify_acquired(Ok(Handle(k.clone())));
    assert_eq!(k.borrow().calls, [0]);
    assert_eq!(c.fact().cancel_state, "ready");
    let k = kernel(false, Some(1));
    let c = Cancellation::verify_acquired(Ok(Handle(k.clone())));
    assert_eq!(k.borrow().calls, [0]);
    assert_eq!(c.fact().cancel_state, "failed");
}

#[test]
fn given_answers_decide_the_step() {
    let (mut c, k, now) = fixture();
    c.step_with(
        StepFacts { now, exit: None, terminal: false, failure: None, first: true },
        SignalAnswers { probe: Ok(true), term: Err("denied".into()), kill: Ok(true) },
    );
    assert!(k.borrow().calls.is_empty());
    assert_eq!(c.phase, Phase::Failed);
    assert_eq!(
        c.result.as_ref().unwrap().as_ref().unwrap_err(),
        "cancellation unresolved: group pidfd syscall failed: denied; no further signals will be attempted"
    );
}

#[test]
fn only_the_caller_that_began_is_told_that_it_won() {
    let (mut c, k, now) = fixture();
    assert!(c.reply(true).is_none());
    step(&mut c, now, None, false, None, true);
    k.borrow_mut().exists = false;
    step(&mut c, now + 1, exit23(), true, None, false);
    assert!(c.finished() && c.group_absent() && !c.active());
    assert_eq!(c.reply(true).unwrap().unwrap().0, CancelOutcome::CancelWon);
    assert_eq!(c.reply(false).unwrap().unwrap().0, CancelOutcome::AlreadyExited);
    assert_eq!(c.fact().cancel_state, "settled");
    assert_eq!(c.finish_deadline(), Some(now + 3 * SECOND));
}

#[test]
fn facts_name_the_state() {
    let k = kernel(true, None);
    let mut c = Cancellation::verify_acquired(Ok(Handle(k.clone())));
    assert_eq!(c.fact().cancel_state, "ready");
    assert_eq!(c.fact().capabilities, ["group-pidfd-cancel-v1"]);
    assert_eq!(c.output_control(), GroupControl::Ready);
    assert!(c.start(0, SECOND, SECOND));
    assert_eq!(c.fact().cancel_state, "running");
    assert_eq!(c.output_control(), GroupControl::Running);
    k.borrow_mut().exists = false;
    step(&mut c, 0, exit23(), false, None, true);
    assert_eq!(c.fact().cancel_state, "group_settled");
    step(&mut c, 1, None, false, Some("gone".into()), false);
    assert_eq!(c.fact().cancel_state, "failed");
    assert_eq!(c.fact().cancel_error.unwrap(), "gone");
    assert_eq!(c.output_control(), GroupControl::Unconfirmed(ControlFault::Wait));
}
