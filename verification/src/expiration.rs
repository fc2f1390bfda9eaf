//! The expiration gate: validates an intent's issued-at/expires-at window
//! against the host-provided current time, before any storage is touched.

use vstd::prelude::*;
use crate::errors::DispatchError;
use crate::intent::{ContractCallIntent, IntentView, CLOCK_SKEW_TOLERANCE};

verus! {

/// The time-window verdict for an intent at a given current time: `Expired`
/// when the current time is past expires-at, `IssuedInFuture` when issued-at
/// lies more than the clock-skew tolerance ahead, and no error otherwise.
/// The checks run in that order.
pub open spec fn time_error(iv: IntentView, now: u64) -> Option<DispatchError> {
    if now > iv.exp {
        Some(DispatchError::Expired)
    } else if iv.iat > now + CLOCK_SKEW_TOLERANCE {
        Some(DispatchError::IssuedInFuture)
    } else {
        None
    }
}

/// Check an intent's time window against the current time.
pub fn check_expiration(intent: &ContractCallIntent, current_time: u64) -> (r: Result<
    (),
    DispatchError,
>)
    ensures
        match time_error(intent@, current_time) {
            Some(e) => r == Err::<(), DispatchError>(e),
            None => r == Ok::<(), DispatchError>(()),
        },
{
    if current_time > intent.exp {
        return Err(DispatchError::Expired);
    }
    if intent.iat > current_time && intent.iat - current_time > CLOCK_SKEW_TOLERANCE {
        return Err(DispatchError::IssuedInFuture);
    }
    Ok(())
}

/// An intent that expires at `t` is still accepted by the time gate at
/// current time exactly `t`, and rejected as `Expired` at `t + 1`.
pub proof fn lemma_expiry_boundary(iv: IntentView, t: u64)
    requires
        iv.exp == t,
        iv.iat <= t,
        t < u64::MAX,
    ensures
        time_error(iv, t) == None::<DispatchError>,
        time_error(iv, (t + 1) as u64) == Some(DispatchError::Expired),
{
}

/// An intent issued at `t` is still accepted by the time gate at current
/// time `t` minus the skew tolerance, and rejected as `IssuedInFuture` one
/// time unit earlier than that.
pub proof fn lemma_skew_boundary(iv: IntentView, t: u64)
    requires
        iv.iat == t,
        iv.exp >= t,
        t > CLOCK_SKEW_TOLERANCE,
    ensures
        time_error(iv, (t - CLOCK_SKEW_TOLERANCE) as u64) == None::<DispatchError>,
        time_error(iv, (t - CLOCK_SKEW_TOLERANCE - 1) as u64) == Some(
            DispatchError::IssuedInFuture,
        ),
{
}

} // verus!
