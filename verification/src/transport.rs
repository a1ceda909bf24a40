//! The retry and deadline policy of an API call.
//!
//! A call has one deadline of two seconds. After each attempt the caller
//! reports how the attempt went and how much of the deadline is left, and
//! [`next_step`] says whether to finish or to wait and send again.

use vstd::prelude::*;

use crate::api::{api_error, handle_response, is_success};
use crate::codec::lossy_text;
use crate::errors::{ErrorKind, StackureError};

verus! {

/// The wall-clock budget of one call, in seconds.
pub const REQUEST_TIMEOUT_SECS: u64 = 2;

/// The pause before the single retry, in nanoseconds (500 ms).
pub const RETRY_DELAY_NANOS: u64 = 500_000_000;

/// How many times a call is sent again after its first attempt.
pub const MAX_RETRIES: u32 = 1;

/// How one attempt went.
#[derive(Debug, Clone)]
pub enum Attempt {
    /// The API answered with a status and a body.
    Answered {
        /// The HTTP status.
        status: u16,
        /// The body bytes.
        body: Vec<u8>,
    },
    /// The request could not be made or its answer could not be read.
    Failed(StackureError),
    /// The deadline passed before the attempt finished.
    TimedOut,
}

/// The shape of an attempt's outcome, as a plain value.
#[derive(Clone, Copy, Debug, PartialEq, Eq, Structural)]
pub enum AttemptKind {
    Answered(u16),
    Failed,
    TimedOut,
}

/// The shape of `a`.
pub open spec fn kind_of(a: Attempt) -> AttemptKind {
    match a {
        Attempt::Answered { status, body } => AttemptKind::Answered(status),
        Attempt::Failed(_) => AttemptKind::Failed,
        Attempt::TimedOut => AttemptKind::TimedOut,
    }
}

/// What to do after an attempt.
#[derive(Debug)]
pub enum Step {
    /// The call is over with this result: the answer's text, or an error.
    Finish(Result<String, StackureError>),
    /// Wait [`RETRY_DELAY_NANOS`] and send the call again.
    RetryAfterDelay,
}

/// Whether another attempt is allowed: none has been retried yet and more
/// than the retry delay is left before the deadline.
pub open spec fn may_retry(attempt: u32, remaining_nanos: u64) -> bool {
    attempt < MAX_RETRIES && remaining_nanos > RETRY_DELAY_NANOS
}

/// Whether an attempt is retried: a 5xx answer or a failure, while a retry
/// is allowed. A timeout never is.
pub open spec fn retry_wanted(attempt: u32, kind: AttemptKind, remaining_nanos: u64) -> bool {
    match kind {
        AttemptKind::Answered(status) => status >= 500 && may_retry(attempt, remaining_nanos),
        AttemptKind::Failed => may_retry(attempt, remaining_nanos),
        AttemptKind::TimedOut => false,
    }
}

/// The error a call that ran out of time gives.
pub open spec fn timeout_error() -> (ErrorKind, Seq<char>) {
    (ErrorKind::Timeout, "request timed out after 2s"@)
}

/// Whether `r` is what an answer with `status` and `body` means.
pub open spec fn answer_means(r: Result<String, StackureError>, status: u16, body: Seq<u8>) -> bool {
    &&& r is Ok <==> is_success(status)
    &&& r matches Ok(t) ==> t@ == lossy_text(body)
    &&& r matches Err(e) ==> e@ == api_error(status, lossy_text(body))
}

/// Decide what follows attempt number `attempt` (counting from 0), given how
/// it went and how many nanoseconds of the deadline are left.
pub fn next_step(attempt: u32, outcome: Attempt, remaining_nanos: u64) -> (s: Step)
    ensures
        s is RetryAfterDelay <==> retry_wanted(attempt, kind_of(outcome), remaining_nanos),
        outcome is TimedOut ==> (s matches Step::Finish(Err(e)) && e@ == timeout_error()),
        outcome matches Attempt::Failed(e) ==> (s is RetryAfterDelay || s == Step::Finish(
            Err::<String, StackureError>(e),
        )),
        outcome matches Attempt::Answered { status, body } ==> (s is RetryAfterDelay || (
        s matches Step::Finish(r) && answer_means(r, status, body@))),
{
    let retry = attempt < MAX_RETRIES && remaining_nanos > RETRY_DELAY_NANOS;
    match outcome {
        Attempt::TimedOut => Step::Finish(
            Err(StackureError::Timeout(String::from_str("request timed out after 2s"))),
        ),
        Attempt::Answered { status, body } => {
            if status < 500 || !retry {
                Step::Finish(handle_response(status, body.as_slice()))
            } else {
                Step::RetryAfterDelay
            }
        },
        Attempt::Failed(e) => {
            if !retry {
                Step::Finish(Err(e))
            } else {
                Step::RetryAfterDelay
            }
        },
    }
}

/// How many times a call is sent when its attempts go as `kinds` and the
/// deadline has `remaining` nanoseconds left after each: one send per
/// attempt, until one is not retried (or the reports run out).
pub open spec fn sends(kinds: Seq<AttemptKind>, remaining: Seq<u64>, attempt: u32) -> nat
    decreases kinds.len(),
{
    if kinds.len() == 0 || remaining.len() == 0 {
        0
    } else if retry_wanted(attempt, kinds[0], remaining[0]) && attempt < u32::MAX {
        1 + sends(kinds.drop_first(), remaining.drop_first(), (attempt + 1) as u32)
    } else {
        1
    }
}

/// A call is sent at most twice: the first attempt and one retry.
pub proof fn law_at_most_two_sends(kinds: Seq<AttemptKind>, remaining: Seq<u64>)
    ensures
        sends(kinds, remaining, 0) <= 2,
{
    if kinds.len() > 0 && remaining.len() > 0 && retry_wanted(0, kinds[0], remaining[0]) {
        let k = kinds.drop_first();
        let r = remaining.drop_first();
        assert(sends(k, r, 1) <= 1);
    }
}

/// A timeout ends the call, whatever else holds.
pub proof fn law_timeout_never_retried(attempt: u32, remaining_nanos: u64)
    ensures
        !retry_wanted(attempt, AttemptKind::TimedOut, remaining_nanos),
{
}

/// No retry is made when the retry delay would reach the deadline.
pub proof fn law_no_retry_past_deadline(attempt: u32, kind: AttemptKind, remaining_nanos: u64)
    requires
        remaining_nanos <= RETRY_DELAY_NANOS,
    ensures
        !retry_wanted(attempt, kind, remaining_nanos),
{
}

} // verus!
