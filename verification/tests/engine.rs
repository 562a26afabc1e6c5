use seqfetch::fetch::{FetchCall, FetchEvent, GetReqError};
use seqfetch::permits::{run_pool, PermitPool, PoolEvent};
use seqfetch::retry::{run_retry, RetryDecision, RetryDriver};

#[test]
fn pool_grants_up_to_capacity() {
    let mut pool = PermitPool::new(1);
    assert!(pool.try_acquire());
    assert!(!pool.try_acquire());
    pool.release();
    assert!(pool.try_acquire());
}

#[test]
fn pool_history_stays_within_bound() {
    // five tasks all asking at once against a pool of two
    let events = vec![
        PoolEvent::Acquire,
        PoolEvent::Acquire,
        PoolEvent::Acquire,
        PoolEvent::Acquire,
        PoolEvent::Acquire,
    ];
    assert_eq!(run_pool(2, &events), 2);
}

#[test]
fn pool_release_frees_a_permit() {
    let events = vec![
        PoolEvent::Acquire,
        PoolEvent::Acquire,
        PoolEvent::Acquire,
        PoolEvent::Release,
        PoolEvent::Acquire,
    ];
    assert_eq!(run_pool(2, &events), 2);
    let events = vec![PoolEvent::Acquire, PoolEvent::Release];
    assert_eq!(run_pool(3, &events), 0);
}

#[test]
fn retry_exhausts_budget() {
    // an operation that always fails is invoked budget + 1 times
    let outcomes = vec![false, false, false, false];
    assert_eq!(run_retry(3, &outcomes), (4, false));
}

#[test]
fn retry_stops_at_first_success() {
    let outcomes = vec![false, true, false, false];
    assert_eq!(run_retry(3, &outcomes), (2, true));
}

#[test]
fn retry_zero_budget() {
    assert_eq!(run_retry(0, &vec![false]), (1, false));
    assert_eq!(run_retry(0, &vec![true]), (1, true));
}

#[test]
fn retry_driver_protocol() {
    let mut driver = RetryDriver::new(1);
    assert!(driver.may_attempt());
    assert_eq!(driver.record_failure(), RetryDecision::RetryAgain);
    assert!(driver.may_attempt());
    assert_eq!(driver.record_failure(), RetryDecision::Exhausted);
    assert!(!driver.may_attempt());
}

#[test]
fn fetch_first_phase_timeout() {
    let mut call = FetchCall::start();
    let reset = call.step(FetchEvent::TimerFired);
    assert!(!reset);
    assert_eq!(call.outcome(), Some(Err(GetReqError::Timeout)));
}

#[test]
fn fetch_second_phase_timeout() {
    // the first phase completing does not let a slow body phase pass
    let mut call = FetchCall::start();
    let reset = call.step(FetchEvent::ResponseArrived);
    assert!(reset);
    let reset = call.step(FetchEvent::TimerFired);
    assert!(!reset);
    assert_eq!(call.outcome(), Some(Err(GetReqError::Timeout)));
}

#[test]
fn fetch_success_takes_both_phases() {
    let mut call = FetchCall::start();
    assert_eq!(call.outcome(), None);
    assert!(call.step(FetchEvent::ResponseArrived));
    assert_eq!(call.outcome(), None);
    assert!(!call.step(FetchEvent::BodyArrived));
    assert_eq!(call.outcome(), Some(Ok(())));
}

#[test]
fn fetch_transport_error_in_either_phase() {
    let mut call = FetchCall::start();
    call.step(FetchEvent::TransportError);
    assert_eq!(call.outcome(), Some(Err(GetReqError::Transport)));

    let mut call = FetchCall::start();
    call.step(FetchEvent::ResponseArrived);
    call.step(FetchEvent::TransportError);
    assert_eq!(call.outcome(), Some(Err(GetReqError::Transport)));
}

#[test]
fn fetch_error_messages() {
    assert_eq!(GetReqError::Timeout.message(), "request timed out");
    assert_eq!(GetReqError::Transport.message(), "transport error");
}
