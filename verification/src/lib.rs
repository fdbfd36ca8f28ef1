//! Wait for an arbitrary (non-child) process to terminate.
//!
//! The crate has two halves: a resolver that turns a process listing and a
//! search term into a single target process id, and a waiter that opens a
//! kernel notification handle for that id and blocks until the process exits.

mod digits;
mod errors;
mod resolve;
mod text;
mod wait;

pub use digits::{i64_to_string, parse_u64, u64_to_string};
pub use errors::WaitPidError;
pub use resolve::{
    build_candidates, choose_candidate, listing_line, render_listing, resolve, Candidate,
    Resolution, ResolveError,
};
pub use text::{contains_str, split_fields, trim_ws};
pub use wait::{classify_open, fd_from_pid, settle_wait_outcome, wait_for_pid, WaitError};
