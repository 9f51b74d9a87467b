use nautilus::exitreason::{decode_wait_status, ExitReason, WaitStatus};
use nautilus::forkserver::exit_from_status_read;

#[test]
fn decodes_exited_status() {
    // A child that exited with code 6: the code sits in the second byte.
    assert_eq!(decode_wait_status(6 << 8), Some(WaitStatus::Exited(6)));
    assert_eq!(decode_wait_status(0), Some(WaitStatus::Exited(0)));
    assert_eq!(decode_wait_status(223 << 8), Some(WaitStatus::Exited(223)));
}

#[test]
fn decodes_signaled_status() {
    // A child killed by a signal carries it in the low septet.
    assert_eq!(decode_wait_status(6), Some(WaitStatus::Signaled(6)));
    assert_eq!(decode_wait_status(9), Some(WaitStatus::Signaled(9)));
    // The core-dump flag does not change the signal.
    assert_eq!(decode_wait_status(0x80 | 11), Some(WaitStatus::Signaled(11)));
}

#[test]
fn decodes_stopped_and_continued_status() {
    assert_eq!(decode_wait_status(19 << 8 | 0x7f), Some(WaitStatus::Stopped(19)));
    assert_eq!(decode_wait_status(0xffff), Some(WaitStatus::Continued));
    // A full low septet that is no stop report names no termination.
    assert_eq!(decode_wait_status(0xff), None);
}

#[test]
fn classifies_every_termination() {
    // Exited, signaled and stopped statuses all classify.
    assert_eq!(ExitReason::from_wait_status(WaitStatus::Exited(0)), ExitReason::Normal(0));
    assert_eq!(ExitReason::from_wait_status(WaitStatus::Exited(223)), ExitReason::Normal(223));
    assert_eq!(ExitReason::from_wait_status(WaitStatus::Signaled(6)), ExitReason::Signaled(6));
    assert_eq!(ExitReason::from_wait_status(WaitStatus::Stopped(19)), ExitReason::Stopped(19));
}

#[test]
fn crash_classification() {
    assert!(ExitReason::Normal(223).is_crash());
    assert!(ExitReason::Signaled(11).is_crash());
    assert!(!ExitReason::Normal(0).is_crash());
    assert!(!ExitReason::Timeouted.is_crash());
    assert!(!ExitReason::Stopped(19).is_crash());
}

#[test]
fn status_read_verdicts() {
    // A timed-out read is the timeout verdict.
    assert_eq!(exit_from_status_read(None), Some(ExitReason::Timeouted));
    assert_eq!(exit_from_status_read(Some(0)), Some(ExitReason::Normal(0)));
    assert_eq!(exit_from_status_read(Some(6)), Some(ExitReason::Signaled(6)));
    assert_eq!(exit_from_status_read(Some(223 << 8)), Some(ExitReason::Normal(223)));
    // A continuation report is no termination: a protocol error.
    assert_eq!(exit_from_status_read(Some(0xffff)), None);
}
