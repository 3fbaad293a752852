//! A level-based reconciliation controller for the `Foo` resource kind: the
//! status rule, the shared runtime state and the scheduling decisions that
//! follow each reconcile attempt.
pub mod laws;
pub mod reconcile;
pub mod state;
pub mod status;
