//! Finding the ASLR slide of running processes.
//!
//! The library holds the decisions: which processes a target names, whether a
//! process is protected by the hardened runtime, and what slide a region query
//! gives. The queries themselves (process listing, code-signing status, task
//! handles, region lookups) are made by the caller, which hands their results in.

pub mod attempt;
pub mod base;
pub mod classify;
pub mod privilege;
pub mod resolve;
pub mod slide;

pub use attempt::{
    attempts_for_name, attempts_for_pid, Action, Attempt, Event, Origin, Phase, TargetSpec,
};
pub use base::{ExpectedBase, DEFAULT_BASE_ADDRESS};
pub use classify::{is_hardened, status_is_hardened, CS_RUNTIME};
pub use privilege::{check_privileges, has_required_privileges, ROOT_UID};
pub use resolve::{matching_pids_of, resolve_by_name, resolve_by_pid, ProcessEntry};
pub use slide::{compute_slide, Failure};
