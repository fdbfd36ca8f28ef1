//! The termination waiter: open a kernel notification handle for a process
//! id, block until the process exits, and release the handle.
//!
//! A strictly positive pid is required before any kernel call is made. The
//! handle returned by the kernel is checked defensively: a negative value
//! reported as success is rejected. Whatever the wait step does, the handle
//! is released exactly once afterwards, and the first error encountered
//! across open, wait and close is the one the caller observes.

use vstd::prelude::*;
use vstd::string::*;

use crate::digits::{i64_to_string, signed_digits};

use rustix::fd::IntoRawFd;

verus! {

/// Why a wait for a process's termination failed.
#[derive(Debug, PartialEq, Eq)]
pub enum WaitError {
    /// The given pid was zero or negative; no kernel call was made.
    InvalidPid(i32),
    /// The kernel refused to open a notification handle; holds the errno
    /// value (for instance when the process already exited).
    OpenFailed(i32),
    /// The kernel reported success but handed back a negative handle;
    /// rejected defensively, holds that handle value.
    InvalidHandle(i32),
    /// The blocking wait on the handle failed; holds the errno value.
    ListenFailed(i32),
    /// Releasing the handle failed; holds the errno value. Surfaced only
    /// when the wait itself succeeded.
    CloseFailed(i32),
}

/// Relies on `rustix::process::pidfd_open`, the `pidfd_open` system call:
/// asks the kernel for a notification handle scoped to `pid`, which becomes
/// readable when that process exits. Nothing is promised of the outcome —
/// the callers handle every result; a failure carries the raw errno value.
/// `Pid::from_raw` returns a pid for every nonzero argument, so the unwrap
/// cannot fail here.
#[verifier::external_body]
fn pidfd_open_raw(pid: i32) -> (r: Result<i32, i32>)
    requires
        pid > 0,
{
    let p = rustix::process::Pid::from_raw(pid).unwrap();
    match rustix::process::pidfd_open(p, rustix::process::PidfdFlags::empty()) {
        Ok(fd) => Ok(fd.into_raw_fd()),
        Err(e) => Err(e.raw_os_error()),
    }
}

/// Relies on `nix::poll::ppoll` with no timeout and an empty signal mask:
/// blocks until the handle reports an event (the watched process exited) or
/// the poll itself fails, and carries the raw errno value on failure.
/// Nothing is promised of the outcome — the caller handles every result.
#[verifier::external_body]
fn poll_handle_raw(fd: i32) -> (r: Result<(), i32>)
{
    let pfd = nix::poll::PollFd::new(fd, nix::poll::PollFlags::POLLIN);
    let mut fds = [pfd];
    match nix::poll::ppoll(&mut fds, None, Some(nix::sys::signal::SigSet::empty())) {
        Ok(_) => Ok(()),
        Err(e) => Err(e as i32),
    }
}

/// Relies on `nix::unistd::close`: releases the handle, and carries the raw
/// errno value on failure.
#[verifier::external_body]
fn close_raw(fd: i32) -> (r: Result<(), i32>)
{
    match nix::unistd::close(fd) {
        Ok(()) => Ok(()),
        Err(e) => Err(e as i32),
    }
}

/// Classify the kernel's answer to the open request: success returns
/// exactly the kernel's non-negative handle, a kernel error keeps its errno
/// value in [`WaitError::OpenFailed`], and a negative handle reported as
/// success is rejected defensively as [`WaitError::InvalidHandle`] holding
/// that handle — never returned as a success.
pub fn classify_open(raw: Result<i32, i32>) -> (r: Result<i32, WaitError>)
    ensures
        raw matches Ok(fd) ==> r == (if fd >= 0 {
            Ok::<i32, WaitError>(fd)
        } else {
            Err::<i32, WaitError>(WaitError::InvalidHandle(fd))
        }),
        raw matches Err(e) ==> r == Err::<i32, WaitError>(WaitError::OpenFailed(e)),
{
    match raw {
        Ok(fd) => {
            if fd < 0 {
                Err(WaitError::InvalidHandle(fd))
            } else {
                Ok(fd)
            }
        },
        Err(e) => Err(WaitError::OpenFailed(e)),
    }
}

/// Open a notification handle for `pid`.
///
/// A pid that is zero or negative is rejected before any kernel call; the
/// kernel's answer is then interpreted exactly as [`classify_open`] states:
/// the non-negative handle on success, the errno on failure, and a
/// defensive rejection of a negative handle reported as success. A returned
/// handle is non-negative and came from a strictly positive pid.
pub fn fd_from_pid(pid: i32) -> (r: Result<i32, WaitError>)
    ensures
        pid <= 0 <==> r == Err::<i32, WaitError>(WaitError::InvalidPid(pid)),
        r matches Ok(fd) ==> pid > 0 && fd >= 0,
        r matches Err(e) ==> match e {
            WaitError::InvalidPid(p) => p == pid && pid <= 0,
            WaitError::OpenFailed(_) => pid > 0,
            WaitError::InvalidHandle(h) => pid > 0 && h < 0,
            _ => false,
        },
{
    if pid <= 0 {
        return Err(WaitError::InvalidPid(pid));
    }
    classify_open(pidfd_open_raw(pid))
}

/// Combine the outcome of the wait step with the outcome of the release
/// step: the first error encountered wins.
///
/// A wait error is propagated even when the close succeeded, and even when
/// the close failed too; a close error is surfaced only when the wait itself
/// succeeded; success requires both to have succeeded.
pub fn settle_wait_outcome(waited: Result<(), i32>, closed: Result<(), i32>) -> (r: Result<
    (),
    WaitError,
>)
    ensures
        waited matches Err(e) ==> r == Err::<(), WaitError>(WaitError::ListenFailed(e)),
        waited is Ok ==> (closed matches Err(e) ==> r == Err::<(), WaitError>(
            WaitError::CloseFailed(e),
        )),
        waited is Ok && closed is Ok ==> r == Ok::<(), WaitError>(()),
{
    match waited {
        Err(e) => Err(WaitError::ListenFailed(e)),
        Ok(()) => match closed {
            Err(e) => Err(WaitError::CloseFailed(e)),
            Ok(()) => Ok(()),
        },
    }
}

/// Block until the process `pid` terminates.
///
/// Opens a notification handle for `pid`, blocks until the handle reports
/// that the process exited, then releases the handle — exactly once, on the
/// success path and on the wait-failure path alike. A pid that is zero or
/// negative fails with [`WaitError::InvalidPid`] before any kernel call, and
/// that error comes on no other input; the first error encountered across
/// open, wait and close is the one returned.
pub fn wait_for_pid(pid: i32) -> (r: Result<(), WaitError>)
    ensures
        pid <= 0 <==> r == Err::<(), WaitError>(WaitError::InvalidPid(pid)),
        r is Ok ==> pid > 0,
        r matches Err(e) ==> (e is InvalidPid <==> pid <= 0),
{
    let fd = match fd_from_pid(pid) {
        Err(e) => {
            return Err(e);
        },
        Ok(fd) => fd,
    };
    let waited = poll_handle_raw(fd);
    let closed = close_raw(fd);
    settle_wait_outcome(waited, closed)
}

/// The human-readable description of a wait error.
pub open spec fn wait_error_text(e: WaitError) -> Seq<char> {
    match e {
        WaitError::InvalidPid(p) => "Improper pid given: "@ + signed_digits(p as int),
        WaitError::OpenFailed(err) => "SYS_pidfd_open call returned error: "@ + signed_digits(
            err as int,
        ),
        WaitError::InvalidHandle(_) => "Invalid fd treated as Ok"@,
        WaitError::ListenFailed(_) => "Error listening for fd"@,
        WaitError::CloseFailed(err) => "Error closing fd: "@ + signed_digits(err as int),
    }
}

impl WaitError {
    /// Render this error for the caller.
    pub fn message(&self) -> (r: String)
        ensures
            r@ == wait_error_text(*self),
    {
        match self {
            WaitError::InvalidPid(p) => String::from_str("Improper pid given: ").concat(
                i64_to_string(*p as i64).as_str(),
            ),
            WaitError::OpenFailed(err) => String::from_str(
                "SYS_pidfd_open call returned error: ",
            ).concat(i64_to_string(*err as i64).as_str()),
            WaitError::InvalidHandle(_) => String::from_str("Invalid fd treated as Ok"),
            WaitError::ListenFailed(_) => String::from_str("Error listening for fd"),
            WaitError::CloseFailed(err) => String::from_str("Error closing fd: ").concat(
                i64_to_string(*err as i64).as_str(),
            ),
        }
    }
}

} // verus!
