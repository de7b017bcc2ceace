//! The retry policy of the node connection.
//!
//! Every logical call notes the instant it started; after each failed
//! attempt the classifier is asked, with the failure and the time elapsed
//! since that start, whether to give up or to sleep and try again. The
//! policy: misconfiguration and node-reported rejections fail at once;
//! a malformed HTTP frame is retried after a second, but only within one
//! second of the start; any other transport failure is retried each second
//! for forty-five seconds; a serialization failure is retried after half a
//! second, within one second of the start.

use vstd::prelude::*;

use crate::errors::TransportError;

verus! {

/// What to do after a failed attempt.
#[derive(Clone, Copy, PartialEq, Eq, Structural, Debug)]
pub enum RetryDecision {
    /// Give up and surface the failure.
    Fail,
    /// Sleep this many milliseconds, then send the same request again.
    RetryAfterMs(u64),
}

/// How long after the start of the logical call a failure of this kind is
/// still retried, if it is retried at all.
pub open spec fn retry_window_ms(e: TransportError) -> Option<u64> {
    match e {
        TransportError::HttpParse => Some(1000u64),
        TransportError::OtherTransport => Some(45000u64),
        TransportError::Json => Some(1000u64),
        _ => None,
    }
}

/// The sleep before the next attempt on a failure of this kind.
pub open spec fn retry_sleep_ms(e: TransportError) -> u64 {
    match e {
        TransportError::Json => 500u64,
        _ => 1000u64,
    }
}

/// The decision the policy owes for a failure `e` seen `elapsed_ms` after
/// the start of the logical call.
pub open spec fn spec_retry_decision(e: TransportError, elapsed_ms: u64) -> RetryDecision {
    match retry_window_ms(e) {
        Some(w) => if elapsed_ms > w {
            RetryDecision::Fail
        } else {
            RetryDecision::RetryAfterMs(retry_sleep_ms(e))
        },
        None => RetryDecision::Fail,
    }
}

/// Classify a failed attempt: give up, or sleep and retry.
pub fn retry_decision(err: &TransportError, elapsed_ms: u64) -> (r: RetryDecision)
    ensures
        r == spec_retry_decision(*err, elapsed_ms),
{
    match err {
        TransportError::InvalidUrl => RetryDecision::Fail,
        TransportError::SocketError => RetryDecision::Fail,
        TransportError::Rpc { .. } => RetryDecision::Fail,
        TransportError::HttpParse => {
            if elapsed_ms > 1000 {
                RetryDecision::Fail
            } else {
                RetryDecision::RetryAfterMs(1000)
            }
        },
        TransportError::OtherTransport => {
            if elapsed_ms > 45000 {
                RetryDecision::Fail
            } else {
                RetryDecision::RetryAfterMs(1000)
            }
        },
        TransportError::Json => {
            if elapsed_ms > 1000 {
                RetryDecision::Fail
            } else {
                RetryDecision::RetryAfterMs(500)
            }
        },
    }
}

/// What one attempt of a logical call came to: the node's answer, or a
/// transport failure.
#[derive(Debug)]
pub enum AttemptOutcome<T> {
    Success(T),
    Failure(TransportError),
}

/// What the caller's loop must do after one attempt.
#[derive(Debug)]
pub enum StepAction<T> {
    /// Hand this answer to the caller, untouched.
    Return(T),
    /// Give up: surface this failure.
    Fail(TransportError),
    /// Sleep this many milliseconds and send the same request again.
    SleepMs(u64),
}

/// One step of the retry loop: a successful attempt is returned to the
/// caller exactly as it came, with no visible difference whether it was the
/// first attempt or a late one; a failure is classified by the policy.
pub fn retry_step<T>(outcome: AttemptOutcome<T>, elapsed_ms: u64) -> (r: StepAction<T>)
    ensures
        outcome matches AttemptOutcome::Success(v) ==> r == StepAction::Return(v),
        outcome matches AttemptOutcome::Failure(e) ==> r == (match spec_retry_decision(
            e,
            elapsed_ms,
        ) {
            RetryDecision::Fail => StepAction::<T>::Fail(e),
            RetryDecision::RetryAfterMs(d) => StepAction::<T>::SleepMs(d),
        }),
{
    match outcome {
        AttemptOutcome::Success(v) => StepAction::Return(v),
        AttemptOutcome::Failure(e) => {
            match retry_decision(&e, elapsed_ms) {
                RetryDecision::Fail => StepAction::Fail(e),
                RetryDecision::RetryAfterMs(d) => StepAction::SleepMs(d),
            }
        },
    }
}

/// A failure that is retryable at all is retried exactly while the time
/// elapsed since the start of the call is within its window: the policy
/// never gives up on it earlier, and never retries it later. A failure
/// with no window fails at once.
pub proof fn lemma_retry_window_policy(e: TransportError, elapsed_ms: u64)
    ensures
        spec_retry_decision(e, elapsed_ms) is RetryAfterMs <==> (retry_window_ms(e) matches Some(w)
            && elapsed_ms <= w),
        retry_window_ms(e) is None ==> spec_retry_decision(e, elapsed_ms) is Fail,
{
}

} // verus!
