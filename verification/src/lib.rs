//! Registry and lifecycle engine for supervised sandbox sessions.
//!
//! The crate holds the decisions of a sandbox manager: the record of every
//! sandbox, the allocation of display numbers, the steps of creating, stopping
//! and deleting a sandbox, the reconciliation of recorded state with observed
//! liveness, and the framing of a log stream for a viewer. Starting processes,
//! sleeping and writing files are left to the caller, which performs the
//! actions that these functions hand out and reports back what happened.

pub mod text;
pub mod record;
pub mod listing;
pub mod error;
pub mod display;
pub mod state;
pub mod sandbox;
pub mod logs;
pub mod screenshot;
pub mod json;
pub mod metrics;
