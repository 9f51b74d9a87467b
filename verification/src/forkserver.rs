//! The decisions of the fork-server protocol.
//!
//! The process machinery — the temporary input file, the shared-memory
//! segment, the two pipes, fork and exec — lives with the caller; this
//! module owns what can be decided from plain values: the child's argv
//! and environment, and the verdict drawn from each read of the status
//! pipe.

use vstd::prelude::*;
use vstd::slice::SliceAdditionalExecFns;
use vstd::string::*;
use crate::decimal::{push_signed, spec_signed_decimal};
use crate::exitreason::{decode_wait_status, spec_decode_wait_status, spec_from_wait_status,
    ExitReason, WaitStatus};

verus! {

/// The descriptor the child reads its go signals from; the status pipe
/// sits one above it.  Both numbers are fixed by the protocol.
pub const FORKSERVER_FD: i32 = 198;

/// An argument, with the input-file placeholder substituted.
pub open spec fn spec_subst(s: Seq<char>, input_path: Seq<char>) -> Seq<char> {
    if s == "@@"@ {
        input_path
    } else {
        s
    }
}

/// One argument of the child's argv: the placeholder `@@` becomes the
/// path of the input file.
fn subst_arg(s: &String, input_file_path: &String) -> (r: String)
    ensures
        r@ == spec_subst(s@, input_file_path@),
{
    let placeholder = "@@".to_owned();
    if s.eq(&placeholder) {
        input_file_path.clone()
    } else {
        s.clone()
    }
}

/// The child's argv: the target path first, then the configured
/// arguments, any occurrence of `@@` replaced by the input file's path.
pub fn build_argv(path: &String, args: &Vec<String>, input_file_path: &String) -> (r: Vec<String>)
    ensures
        r@.len() == 1 + args@.len(),
        r@[0]@ == spec_subst(path@, input_file_path@),
        forall|j: int|
            0 <= j < args@.len() ==> (#[trigger] r@[j + 1])@ == spec_subst(
                args@[j]@,
                input_file_path@,
            ),
{
    let mut r: Vec<String> = Vec::new();
    r.push(subst_arg(path, input_file_path));
    let mut j: usize = 0;
    while j < args.len()
        invariant
            j <= args@.len(),
            r@.len() == 1 + j,
            r@[0]@ == spec_subst(path@, input_file_path@),
            forall|t: int|
                0 <= t < j ==> (#[trigger] r@[t + 1])@ == spec_subst(args@[t]@, input_file_path@),
        decreases args@.len() - j,
    {
        r.push(subst_arg(&args[j], input_file_path));
        j += 1;
    }
    r
}

/// The environment line that hands the instrumented child the id of the
/// coverage shared-memory segment.
pub fn shm_env_line(shm_id: i32) -> (r: String)
    ensures
        r@ == "__AFL_SHM_ID="@ + spec_signed_decimal(shm_id as int),
{
    let mut r = "__AFL_SHM_ID=".to_owned();
    push_signed(&mut r, shm_id);
    r
}

/// The sanitizer settings the child runs under: a crash is reported by
/// exiting with code 223, errors abort, leaks and symbols stay off.
pub fn asan_env_line() -> (r: String)
    ensures
        r@ == "ASAN_OPTIONS=exitcode=223,abort_on_error=true,detect_leaks=0,symbolize=0"@,
{
    "ASAN_OPTIONS=exitcode=223,abort_on_error=true,detect_leaks=0,symbolize=0".to_owned()
}

/// The first step of every run: the whole coverage region is zeroed, so
/// that after the run every non-zero cell was written by that execution
/// alone.
pub fn zero_bitmap(bitmap: &mut [u8])
    ensures
        final(bitmap)@.len() == old(bitmap)@.len(),
        forall|i: int| 0 <= i < final(bitmap)@.len() ==> final(bitmap)@[i] == 0,
{
    let n = bitmap.len();
    let mut i: usize = 0;
    while i < n
        invariant
            i <= n,
            n == bitmap@.len(),
            bitmap@.len() == old(bitmap)@.len(),
            forall|t: int| 0 <= t < i ==> bitmap@[t] == 0,
        decreases n - i,
    {
        bitmap.set(i, 0);
        i += 1;
    }
}

/// The verdict of one read of the status pipe.  A read word is decoded
/// by the POSIX layout and classified; a read that timed out is the
/// timeout verdict — the caller kills the child and drains the delayed
/// status word to resynchronise the protocol; a word that names no
/// termination is a protocol error, and the caller gives up on the run.
pub fn exit_from_status_read(status_read: Option<i32>) -> (r: Option<ExitReason>)
    ensures
        status_read is None ==> r == Some(ExitReason::Timeouted),
        status_read matches Some(raw) ==> r == (match spec_decode_wait_status(raw) {
            Some(ws) => if ws is Continued {
                None
            } else {
                Some(spec_from_wait_status(ws))
            },
            None => None::<ExitReason>,
        }),
{
    match status_read {
        None => Some(ExitReason::Timeouted),
        Some(raw) => match decode_wait_status(raw) {
            Some(ws) => {
                if matches!(ws, WaitStatus::Continued) {
                    None
                } else {
                    Some(ExitReason::from_wait_status(ws))
                }
            },
            None => None,
        },
    }
}

} // verus!
