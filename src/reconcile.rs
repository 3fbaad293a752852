//! What a reconcile attempt decides: the patch it sends, how its outcome
//! changes the shared state, and when the object is looked at again.
use vstd::prelude::*;
use crate::state::State;
use crate::status::{desired_status, is_bad_text, status_patch, status_patch_text, FooSpec};

verus! {

/// Seconds before an object that was brought up to date is looked at again.
pub const RESYNC_SECS: u64 = 1800;

/// Seconds before a failed reconcile is tried again, whatever the failure.
pub const RETRY_SECS: u64 = 360;

/// Why a reconcile attempt, or the controller's startup, failed.
#[derive(Clone, Copy, Debug, PartialEq, Eq, Structural)]
pub enum Error {
    /// The status could not be encoded for the store.
    SerializationFailure,
    /// The store rejected the status patch or could not apply it.
    StatusPatchFailure,
    /// The object was gone when its spec was fetched.
    ObjectNotFound,
    /// The resource definition of the managed kind is not registered.
    StartupPrerequisiteMissing,
}

/// The scheduling directive that follows a reconcile attempt.
#[derive(Clone, Copy, Debug, PartialEq, Eq, Structural)]
pub struct ReconcilerAction {
    /// Seconds before the object is reconciled again, if it is to be.
    pub requeue_after_secs: Option<u64>,
}

/// Look again after the periodic resync interval.
pub open spec fn resync_action() -> ReconcilerAction {
    ReconcilerAction { requeue_after_secs: Some(RESYNC_SECS) }
}

/// Look again after the fixed retry delay.
pub open spec fn retry_action() -> ReconcilerAction {
    ReconcilerAction { requeue_after_secs: Some(RETRY_SECS) }
}

/// What a reconcile reports once its status patch came back with `patched`.
pub open spec fn finish_result(patched: Result<(), Error>) -> Result<ReconcilerAction, Error> {
    match patched {
        Ok(_) => Ok(resync_action()),
        Err(e) => Err(e),
    }
}

/// The shared state once a status patch came back with `patched`.
pub open spec fn finish_state(s: State, patched: Result<(), Error>) -> State {
    match patched {
        Ok(_) => s.handled(),
        Err(_) => s,
    }
}

/// The directive that the driver hands back to the change notifier for a
/// reconcile that reported `outcome`.
pub open spec fn next_action_spec(outcome: Result<ReconcilerAction, Error>) -> ReconcilerAction {
    match outcome {
        Ok(action) => action,
        Err(_) => retry_action(),
    }
}

/// The status patch for an object whose spec was fetched as `fetched`
/// (`None` when the object had vanished).
pub fn patch_for(fetched: Option<&FooSpec>) -> (r: Result<String, Error>)
    ensures
        match fetched {
            Some(spec) => r matches Ok(body) && body@ == status_patch_text(is_bad_text(spec.info@)),
            None => r == Err::<String, Error>(Error::ObjectNotFound),
        },
{
    match fetched {
        Some(spec) => Ok(status_patch(&desired_status(spec))),
        None => Err(Error::ObjectNotFound),
    }
}

/// Ends a reconcile attempt once the store answered its status patch: an
/// accepted patch counts as one handled event and asks for the periodic
/// resync; a failure leaves the state alone and is reported as it came.
pub fn finish_reconcile(state: &mut State, patched: Result<(), Error>) -> (r: Result<
    ReconcilerAction,
    Error,
>)
    ensures
        *final(state) == finish_state(*old(state), patched),
        r == finish_result(patched),
{
    match patched {
        Ok(()) => {
            state.record_handled();
            Ok(ReconcilerAction { requeue_after_secs: Some(RESYNC_SECS) })
        },
        Err(e) => Err(e),
    }
}

/// The retry directive for a failed reconcile: the same fixed delay for every
/// kind of failure.
pub fn error_policy(error: &Error) -> (r: ReconcilerAction)
    ensures
        r == retry_action(),
{
    ReconcilerAction { requeue_after_secs: Some(RETRY_SECS) }
}

/// The directive that follows a reconcile that reported `outcome`: its own on
/// success, the error policy's on failure.
pub fn next_action(outcome: &Result<ReconcilerAction, Error>) -> (r: ReconcilerAction)
    ensures
        r == next_action_spec(*outcome),
{
    match outcome {
        Ok(action) => *action,
        Err(e) => error_policy(e),
    }
}

/// The startup check: the control loop may begin only when the resource
/// definition of the managed kind was found in the store.
pub fn check_prerequisite(found: bool) -> (r: Result<(), Error>)
    ensures
        found ==> r == Ok::<(), Error>(()),
        !found ==> r == Err::<(), Error>(Error::StartupPrerequisiteMissing),
{
    if found {
        Ok(())
    } else {
        Err(Error::StartupPrerequisiteMissing)
    }
}

} // verus!
