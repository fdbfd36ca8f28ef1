use pidwait::{classify_open, fd_from_pid, settle_wait_outcome, wait_for_pid, WaitError, WaitPidError};

#[test]
fn wait_rejects_pid_zero() {
    assert_eq!(wait_for_pid(0), Err(WaitError::InvalidPid(0)));
}

#[test]
fn wait_rejects_negative_pids() {
    assert_eq!(wait_for_pid(-1), Err(WaitError::InvalidPid(-1)));
    assert_eq!(wait_for_pid(-32768), Err(WaitError::InvalidPid(-32768)));
    assert_eq!(wait_for_pid(i32::MIN), Err(WaitError::InvalidPid(i32::MIN)));
}

#[test]
fn open_rejects_pid_zero_and_negative() {
    assert_eq!(fd_from_pid(0), Err(WaitError::InvalidPid(0)));
    assert_eq!(fd_from_pid(-7), Err(WaitError::InvalidPid(-7)));
}

#[test]
fn open_succeeds_for_a_live_process() {
    // Process id 1 always exists: it is the init process of this pid
    // namespace.
    match fd_from_pid(1) {
        Ok(fd) => assert!(fd >= 0),
        Err(e) => panic!("could not open a handle for pid 1: {:?}", e),
    }
}

#[test]
fn open_fails_for_a_pid_that_cannot_exist() {
    // Larger than any configurable pid limit, so no such process exists.
    match fd_from_pid(i32::MAX) {
        Err(WaitError::OpenFailed(errno)) => assert!(errno > 0),
        other => panic!("expected a kernel open failure, got {:?}", other),
    }
}

#[test]
fn open_result_is_classified_exactly() {
    assert_eq!(classify_open(Ok(5)), Ok(5));
    assert_eq!(classify_open(Ok(0)), Ok(0));
    assert_eq!(classify_open(Ok(-2)), Err(WaitError::InvalidHandle(-2)));
    assert_eq!(classify_open(Err(3)), Err(WaitError::OpenFailed(3)));
}

#[test]
fn first_error_wins_across_wait_and_close() {
    assert_eq!(settle_wait_outcome(Ok(()), Ok(())), Ok(()));
    assert_eq!(
        settle_wait_outcome(Err(5), Ok(())),
        Err(WaitError::ListenFailed(5))
    );
    assert_eq!(
        settle_wait_outcome(Ok(()), Err(9)),
        Err(WaitError::CloseFailed(9))
    );
    assert_eq!(
        settle_wait_outcome(Err(5), Err(9)),
        Err(WaitError::ListenFailed(5))
    );
}

#[test]
fn wait_error_messages() {
    assert_eq!(
        WaitError::InvalidPid(-3).message(),
        "Improper pid given: -3"
    );
    assert_eq!(
        WaitError::OpenFailed(3).message(),
        "SYS_pidfd_open call returned error: 3"
    );
    assert_eq!(WaitError::InvalidHandle(-1).message(), "Invalid fd treated as Ok");
    assert_eq!(WaitError::ListenFailed(4).message(), "Error listening for fd");
    assert_eq!(WaitError::CloseFailed(9).message(), "Error closing fd: 9");
}

#[test]
fn error_carrier_keeps_its_text() {
    let e = WaitPidError::new(String::from("something went wrong"));
    assert_eq!(e.message(), "something went wrong");
    let e = WaitPidError::from("a fixed description");
    assert_eq!(e.message(), "a fixed description");
}
