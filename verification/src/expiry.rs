//! The expiry policy: validating the optional voting cutoff and deletion
//! timestamps a poll-creation request may carry, relative to the creation
//! time. Timestamps are seconds since the Unix epoch.

use vstd::prelude::*;

use crate::models::ValidationError;

verus! {

/// How long a poll lives by default: thirty minutes, in seconds. Used
/// both as the comparison baseline when only a deletion override is
/// given and as the stored default when an override is absent.
pub const DEFAULT_EXPIRY_SECONDS: i64 = 1800;

/// The voting cutoff the policy compares the deletion time against: the
/// override when present, else thirty minutes past `now`.
pub open spec fn effective_timeout(now: i64, timeout_override: Option<i64>) -> int {
    match timeout_override {
        Some(t) => t as int,
        None => now + 1800,
    }
}

/// What the policy decides: a timeout override in the past is rejected;
/// a deletion override before the effective timeout is rejected; else
/// the overrides are returned exactly as supplied (boundary equality is
/// allowed in both comparisons).
pub open spec fn spec_resolve(now: i64, timeout_override: Option<i64>, delete_override: Option<
    i64,
>) -> Result<(Option<i64>, Option<i64>), ValidationError> {
    if timeout_override is Some && timeout_override->0 < now {
        Err(ValidationError::TimeoutInPast)
    } else if delete_override is Some && (delete_override->0 as int) < effective_timeout(
        now,
        timeout_override,
    ) {
        Err(ValidationError::DeletePrecedesTimeout)
    } else {
        Ok((timeout_override, delete_override))
    }
}

/// Validates the timestamp overrides of a poll-creation request against
/// the creation time `now`. On success the returned pair is exactly the
/// caller-supplied overrides; defaults are the repository's concern.
pub fn resolve(now: i64, timeout_override: Option<i64>, delete_override: Option<i64>) -> (r:
    Result<(Option<i64>, Option<i64>), ValidationError>)
    requires
        now + DEFAULT_EXPIRY_SECONDS <= i64::MAX,
    ensures
        r == spec_resolve(now, timeout_override, delete_override),
{
    if let Some(t) = timeout_override {
        if t < now {
            return Err(ValidationError::TimeoutInPast);
        }
    }
    if let Some(d) = delete_override {
        let baseline = match timeout_override {
            Some(t) => t,
            None => now + DEFAULT_EXPIRY_SECONDS,
        };
        if d < baseline {
            return Err(ValidationError::DeletePrecedesTimeout);
        }
    }
    Ok((timeout_override, delete_override))
}

/// A timeout override earlier than the creation time is always rejected,
/// whatever the deletion override says.
pub proof fn lemma_past_timeout_rejected(now: i64, t: i64, delete_override: Option<i64>)
    requires
        t < now,
    ensures
        spec_resolve(now, Some(t), delete_override) == Err::<
            (Option<i64>, Option<i64>),
            ValidationError,
        >(ValidationError::TimeoutInPast),
{
}

/// A deletion override earlier than the given timeout override is always
/// rejected, while equality on the boundary is accepted.
pub proof fn lemma_delete_before_timeout_rejected(now: i64, t: i64, d: i64)
    requires
        now <= t,
    ensures
        d < t ==> spec_resolve(now, Some(t), Some(d)) == Err::<
            (Option<i64>, Option<i64>),
            ValidationError,
        >(ValidationError::DeletePrecedesTimeout),
        spec_resolve(now, Some(t), Some(t)) == Ok::<
            (Option<i64>, Option<i64>),
            ValidationError,
        >((Some(t), Some(t))),
{
}

} // verus!
