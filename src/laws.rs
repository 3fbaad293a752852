//! What holds of every reconcile attempt, stated over the contracts of the
//! functions that carry one out.
use vstd::prelude::*;
use crate::reconcile::{
    finish_result, finish_state, next_action_spec, resync_action, retry_action, Error,
    RESYNC_SECS, RETRY_SECS,
};
use crate::state::State;

verus! {

/// A reconcile at time `now` whose patch was accepted counts exactly one more
/// handled event, and leaves a last event time no earlier than before (nor
/// than `now`).
pub proof fn lemma_success_counts_once(s0: State, now: i64)
    requires
        s0.handled_count < u64::MAX,
    ensures
        finish_state(s0.attempted(now), Ok(())).handled_count == s0.handled_count + 1,
        finish_state(s0.attempted(now), Ok(())).last_event >= s0.last_event,
        finish_state(s0.attempted(now), Ok(())).last_event >= now,
{
}

/// A reconcile that fails, at the fetch or at the patch and of whatever kind,
/// leaves the handled count alone, and the driver retries it after the fixed
/// backoff.
pub proof fn lemma_failure_retries(s0: State, now: i64, e: Error)
    ensures
        s0.attempted(now).handled_count == s0.handled_count,
        finish_state(s0.attempted(now), Err(e)).handled_count == s0.handled_count,
        next_action_spec(finish_result(Err(e))) == retry_action(),
        retry_action().requeue_after_secs == Some(RETRY_SECS),
        RETRY_SECS == 360,
{
}

/// A reconcile whose patch was accepted is looked at again after the fixed
/// resync interval.
pub proof fn lemma_success_resyncs()
    ensures
        next_action_spec(finish_result(Ok(()))) == resync_action(),
        resync_action().requeue_after_secs == Some(RESYNC_SECS),
        RESYNC_SECS == 1800,
{
}

} // verus!
