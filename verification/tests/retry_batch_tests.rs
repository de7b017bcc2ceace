//! The retry classifier's windows and the batch collector on concrete
//! outcomes.

use revaultd::batch::collect_batch;
use revaultd::errors::{BitcoindError, TransportError};
use revaultd::retry::{retry_decision, retry_step, AttemptOutcome, RetryDecision, StepAction};

#[test]
fn misconfiguration_fails_at_once() {
    assert_eq!(
        retry_decision(&TransportError::InvalidUrl, 0),
        RetryDecision::Fail
    );
    assert_eq!(
        retry_decision(&TransportError::SocketError, 0),
        RetryDecision::Fail
    );
}

#[test]
fn node_rejections_are_never_retried() {
    assert_eq!(
        retry_decision(&TransportError::Rpc { code: -32600 }, 0),
        RetryDecision::Fail
    );
}

#[test]
fn transport_failures_are_retried_within_forty_five_seconds() {
    assert_eq!(
        retry_decision(&TransportError::OtherTransport, 0),
        RetryDecision::RetryAfterMs(1000)
    );
    assert_eq!(
        retry_decision(&TransportError::OtherTransport, 44_000),
        RetryDecision::RetryAfterMs(1000)
    );
    assert_eq!(
        retry_decision(&TransportError::OtherTransport, 45_000),
        RetryDecision::RetryAfterMs(1000)
    );
    assert_eq!(
        retry_decision(&TransportError::OtherTransport, 45_001),
        RetryDecision::Fail
    );
}

#[test]
fn http_framing_failures_get_one_second() {
    assert_eq!(
        retry_decision(&TransportError::HttpParse, 900),
        RetryDecision::RetryAfterMs(1000)
    );
    assert_eq!(
        retry_decision(&TransportError::HttpParse, 1001),
        RetryDecision::Fail
    );
}

#[test]
fn serialization_failures_sleep_half_a_second() {
    assert_eq!(
        retry_decision(&TransportError::Json, 0),
        RetryDecision::RetryAfterMs(500)
    );
    assert_eq!(
        retry_decision(&TransportError::Json, 1001),
        RetryDecision::Fail
    );
}

#[test]
fn late_success_is_returned_unchanged() {
    // A success after earlier failed attempts comes back exactly as the
    // node sent it, indistinguishable from a first-try success.
    match retry_step(AttemptOutcome::Success(42u64), 30_000) {
        StepAction::Return(v) => assert_eq!(v, 42),
        _ => panic!("a successful attempt must be returned"),
    }
    match retry_step(AttemptOutcome::<u64>::Failure(TransportError::OtherTransport), 30_000) {
        StepAction::SleepMs(d) => assert_eq!(d, 1000),
        _ => panic!("a transport failure within the window must be retried"),
    }
    match retry_step(AttemptOutcome::<u64>::Failure(TransportError::OtherTransport), 50_000) {
        StepAction::Fail(e) => assert_eq!(e, TransportError::OtherTransport),
        _ => panic!("a transport failure past the window must fail"),
    }
}

#[test]
fn short_batch_is_a_distinct_error() {
    let resps: Vec<Option<Result<u64, TransportError>>> = vec![Some(Ok(1)), None, Some(Ok(2))];
    match collect_batch(3, resps) {
        Err(BitcoindError::BatchMissingResponse) => {}
        _ => panic!("a short batch must be the distinct missing-response error"),
    }
}

#[test]
fn full_batch_is_collected_in_order() {
    let resps: Vec<Option<Result<u64, TransportError>>> =
        vec![Some(Ok(10)), Some(Ok(20)), Some(Ok(30))];
    assert_eq!(collect_batch(3, resps).unwrap(), vec![10, 20, 30]);
}

#[test]
fn first_batch_failure_wins() {
    let resps: Vec<Option<Result<u64, TransportError>>> = vec![
        Some(Ok(1)),
        Some(Err(TransportError::Rpc { code: -26 })),
        Some(Err(TransportError::Json)),
    ];
    match collect_batch(3, resps) {
        Err(BitcoindError::Server(TransportError::Rpc { code })) => assert_eq!(code, -26),
        _ => panic!("the first failed answer must be surfaced"),
    }
}
