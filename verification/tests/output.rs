use pipekeep::output::{Collection, CollectionCause, OutputFact, StopReason, MAX_LIMIT};
use pipekeep::protocol::{ExitResult, ProtocolError};

fn finished(limit: u64, retained: u64) -> OutputFact {
    let mut fact = OutputFact::new(limit);
    fact.stdout.retained = retained;
    fact.stdout.collection = Collection::Eof;
    fact.stderr.collection = Collection::Eof;
    fact.stdout.prefix_complete = true;
    fact.stderr.prefix_complete = true;
    fact.sealed = true;
    fact.leader_exit = Some(ExitResult { code: Some(0), signal: None });
    fact
}

#[test]
fn a_new_fact_has_its_whole_limit_available() {
    let fact = OutputFact::new(100);
    assert_eq!(fact.available(), 100);
    assert!(!fact.collected());
    assert!(!fact.complete());
    // It claims complete streams before they ended, which is told to nobody.
    assert_eq!(fact.validate(false), Err(ProtocolError::FactCompleteness));
    let mut told = fact;
    told.stdout.prefix_complete = false;
    told.stderr.prefix_complete = false;
    assert!(told.validate(false).is_ok());
    assert_eq!(told.validate(true), Err(ProtocolError::FactUnsettled));
}

#[test]
fn charges_count_against_the_limit() {
    let mut fact = OutputFact::new(10);
    fact.stdout.retained = 3;
    fact.stderr.reserved = 4;
    fact.io_inflight = 1;
    assert_eq!(fact.available(), 3);
    fact.stderr.reserved = 8;
    assert!(fact.validate(false).is_err());
    fact.stderr.reserved = u64::MAX;
    assert_eq!(fact.validate(false), Err(ProtocolError::FactAccounting));
    fact = OutputFact::new(MAX_LIMIT + 1);
    assert_eq!(fact.validate(false), Err(ProtocolError::FactRange));
}

#[test]
fn a_zero_exit_with_lost_output_is_no_success() {
    let fact = finished(10, 3);
    assert!(fact.complete());
    assert_eq!(fact.process_code(), 0);
    let mut stopped = fact;
    stopped.first_stop = Some(StopReason::OutputLimit);
    assert!(!stopped.complete());
    assert_eq!(stopped.process_code(), 1);
    stopped.leader_exit = Some(ExitResult { code: Some(7), signal: None });
    assert_eq!(stopped.process_code(), 7);
    stopped.leader_exit = None;
    assert_eq!(stopped.process_code(), 1);
}

#[test]
fn an_unsettled_fact_ends_no_replay() {
    let mut fact = finished(10, 3);
    assert!(fact.validate(true).is_ok());
    fact.stdout.collection = Collection::Reading;
    fact.stdout.prefix_complete = false;
    fact.sealed = false;
    assert!(fact.validate(true).is_err());
    let mut gone = finished(10, 3);
    gone.stdout.collection = Collection::Unconfirmed(CollectionCause::TailTime);
    gone.stdout.prefix_complete = false;
    assert!(!gone.complete());
}
