//! Retrying an update of the state branch that raced another writer. The
//! git work is the caller's; here is what a failure message means and what
//! to do after each attempt.

use vstd::prelude::*;
use crate::text::{lowercase, lower_of, seq_contains, str_contains};

verus! {

/// Attempts made before giving up on concurrent writers.
pub const MAX_GIT_ATTEMPTS: u32 = 3;

/// Wait before the second attempt; it doubles after each conflict.
pub const INITIAL_BACKOFF_MS: u64 = 1000;

/// A failure caused by another writer: the lower-cased message mentions a
/// conflict, a rejected push or a non-fast-forward.
pub open spec fn is_conflict_text(lower: Seq<char>) -> bool {
    seq_contains(lower, "conflict"@) || seq_contains(lower, "rejected"@) || seq_contains(
        lower,
        "non-fast-forward"@,
    )
}

/// Whether a failed attempt lost a race with another writer.
pub fn is_conflict_error(message: &str) -> (r: bool)
    ensures
        r == is_conflict_text(lower_of(message@)),
{
    let lower = lowercase(message);
    is_conflict_lower(lower.as_str())
}

/// Whether an already lower-cased failure message tells of a race.
pub fn is_conflict_lower(l: &str) -> (r: bool)
    ensures
        r == is_conflict_text(l@),
{
    str_contains(l, "conflict") || str_contains(l, "rejected") || str_contains(l, "non-fast-forward")
}

/// What follows an attempt.
#[derive(Debug, Clone, Copy, PartialEq, Eq, Structural)]
pub enum RetryStep {
    /// The update went through.
    Done,
    /// Wait `backoff_ms`, then try again with the next backoff.
    RetryAfter { backoff_ms: u64, next_backoff_ms: u64 },
    /// Every attempt lost a race: report that concurrent writers prevented it.
    GiveUp,
    /// A failure that retrying will not mend: report it as it is.
    Fail,
}

/// The step after attempt number `attempt` (from 1), which failed when
/// `failure` is present, with whether the failure was a conflict.
pub fn next_step(attempt: u32, failure: Option<bool>, backoff_ms: u64) -> (r: RetryStep)
    requires
        backoff_ms <= u64::MAX / 2,
    ensures
        failure is None ==> r == RetryStep::Done,
        failure == Some(true) && attempt < MAX_GIT_ATTEMPTS ==> r == (RetryStep::RetryAfter {
            backoff_ms,
            next_backoff_ms: (2 * backoff_ms) as u64,
        }),
        failure == Some(true) && attempt >= MAX_GIT_ATTEMPTS ==> r == RetryStep::GiveUp,
        failure == Some(false) ==> r == RetryStep::Fail,
{
    match failure {
        None => RetryStep::Done,
        Some(true) => {
            if attempt < MAX_GIT_ATTEMPTS {
                RetryStep::RetryAfter { backoff_ms, next_backoff_ms: 2 * backoff_ms }
            } else {
                RetryStep::GiveUp
            }
        },
        Some(false) => RetryStep::Fail,
    }
}

} // verus!
