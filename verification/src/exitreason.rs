//! Classification of a waited child's termination.

use vstd::prelude::*;

verus! {

/// What became of one execution of the target: a normal exit with a code,
/// a timeout enforced by the parent, death by a signal, or a stop signal.
#[derive(Debug, Copy, Clone, PartialEq, Eq, Structural)]
pub enum ExitReason {
    Normal(i32),
    Timeouted,
    Signaled(i32),
    Stopped(i32),
}

/// A decoded wait status, as POSIX reports it: the three cases `waitpid`
/// can deliver for a terminated or stopped child, plus the continuation
/// report, which is no termination.
#[derive(Debug, Copy, Clone, PartialEq, Eq, Structural)]
pub enum WaitStatus {
    Exited(i32),
    Signaled(i32),
    Stopped(i32),
    Continued,
}

/// The classification `from_wait_status` returns for each admissible status.
pub open spec fn spec_from_wait_status(status: WaitStatus) -> ExitReason {
    match status {
        WaitStatus::Exited(return_value) => ExitReason::Normal(return_value),
        WaitStatus::Signaled(signal) => ExitReason::Signaled(signal),
        WaitStatus::Stopped(signal) => ExitReason::Stopped(signal),
        WaitStatus::Continued => ExitReason::Normal(0),
    }
}

/// What `decode_wait_status` makes of a raw status word, by the POSIX bit
/// layout: a zero low septet is an exit, a low byte of `0x7f` is a stop,
/// a termination signal occupies the low septet otherwise, and the word
/// `0xffff` reports a continued child.  Any other word with a full low
/// septet is malformed.
pub open spec fn spec_decode_wait_status(raw: i32) -> Option<WaitStatus> {
    if raw & 0x7f == 0 {
        Some(WaitStatus::Exited((raw >> 8) & 0xff))
    } else if raw & 0xff == 0x7f {
        Some(WaitStatus::Stopped((raw >> 8) & 0xff))
    } else if raw & 0x7f != 0x7f {
        Some(WaitStatus::Signaled(raw & 0x7f))
    } else if raw == 0xffff {
        Some(WaitStatus::Continued)
    } else {
        None
    }
}

/// Decode a raw wait-status word as `waitpid` would report it.
pub fn decode_wait_status(raw: i32) -> (r: Option<WaitStatus>)
    ensures
        r == spec_decode_wait_status(raw),
{
    if raw & 0x7f == 0 {
        Some(WaitStatus::Exited((raw >> 8) & 0xff))
    } else if raw & 0xff == 0x7f {
        Some(WaitStatus::Stopped((raw >> 8) & 0xff))
    } else if raw & 0x7f != 0x7f {
        Some(WaitStatus::Signaled(raw & 0x7f))
    } else if raw == 0xffff {
        Some(WaitStatus::Continued)
    } else {
        None
    }
}

impl ExitReason {
    /// Classify a decoded wait status.  Total over the exited, signaled
    /// and stopped statuses; a continuation report is not a termination
    /// and is refused by the precondition.
    pub fn from_wait_status(status: WaitStatus) -> (r: ExitReason)
        requires
            !(status is Continued),
        ensures
            r == spec_from_wait_status(status),
    {
        match status {
            WaitStatus::Exited(return_value) => ExitReason::Normal(return_value),
            WaitStatus::Signaled(signal) => ExitReason::Signaled(signal),
            WaitStatus::Stopped(signal) => ExitReason::Stopped(signal),
            WaitStatus::Continued => ExitReason::Normal(0),  // unreachable under the precondition
        }
    }

    /// A run counts as a crash when the sanitizer exited with its reserved
    /// code or the target died by a signal.
    pub fn is_crash(&self) -> (r: bool)
        ensures
            r == spec_is_crash(*self),
    {
        match *self {
            ExitReason::Normal(code) => code == 223,
            ExitReason::Signaled(_) => true,
            _ => false,
        }
    }
}

/// True when a run with this exit reason counts as a crash: either the
/// sanitizer's reserved exit code 223 or death by signal.
pub open spec fn spec_is_crash(r: ExitReason) -> bool {
    ||| r matches ExitReason::Normal(c) && c == 223
    ||| r matches ExitReason::Signaled(_)
}

} // verus!
