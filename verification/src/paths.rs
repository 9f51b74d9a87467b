//! Names of the files the fuzzer persists under its working directory:
//! queue entries at discovery and after minimisation, crashing inputs,
//! and timing-out inputs.

use vstd::prelude::*;
use vstd::string::*;
use crate::decimal::{push_padded, push_signed, spec_padded, spec_signed_decimal};
use crate::exitreason::ExitReason;

verus! {

/// The label of an exit reason as it appears in queue file names.
pub open spec fn spec_exit_reason_label(er: ExitReason) -> Seq<char> {
    match er {
        ExitReason::Normal(code) => "Normal("@ + spec_signed_decimal(code as int) + ")"@,
        ExitReason::Timeouted => "Timeouted"@,
        ExitReason::Signaled(sig) => "Signaled("@ + spec_signed_decimal(sig as int) + ")"@,
        ExitReason::Stopped(sig) => "Stopped("@ + spec_signed_decimal(sig as int) + ")"@,
    }
}

/// Append the label of an exit reason.
pub fn push_exit_reason_label(s: &mut String, er: &ExitReason)
    ensures
        final(s)@ == old(s)@ + spec_exit_reason_label(*er),
{
    match *er {
        ExitReason::Normal(code) => {
            proof {
                reveal_strlit("Normal(");
                reveal_strlit(")");
            }
            s.append("Normal(");
            push_signed(s, code);
            s.append(")");
            proof {
                assert(s@ =~= old(s)@ + spec_exit_reason_label(*er));
            }
        },
        ExitReason::Timeouted => {
            s.append("Timeouted");
        },
        ExitReason::Signaled(sig) => {
            proof {
                reveal_strlit("Signaled(");
                reveal_strlit(")");
            }
            s.append("Signaled(");
            push_signed(s, sig);
            s.append(")");
            proof {
                assert(s@ =~= old(s)@ + spec_exit_reason_label(*er));
            }
        },
        ExitReason::Stopped(sig) => {
            proof {
                reveal_strlit("Stopped(");
                reveal_strlit(")");
            }
            s.append("Stopped(");
            push_signed(s, sig);
            s.append(")");
            proof {
                assert(s@ =~= old(s)@ + spec_exit_reason_label(*er));
            }
        },
    }
}

/// Where a queue entry is persisted when it is discovered.
pub open spec fn spec_queue_file_path(
    work_dir: Seq<char>,
    id: nat,
    er: ExitReason,
    extension: Seq<char>,
) -> Seq<char> {
    work_dir + "/outputs/queue/id:"@ + spec_padded(id, 9) + ",er:"@ + spec_exit_reason_label(er)
        + extension
}

/// Where a queue entry is rewritten once minimisation has finished.
pub open spec fn spec_queue_min_file_path(
    work_dir: Seq<char>,
    id: nat,
    er: ExitReason,
    extension: Seq<char>,
) -> Seq<char> {
    work_dir + "/outputs/queue/id:"@ + spec_padded(id, 9) + ",er:"@ + spec_exit_reason_label(er)
        + ".min"@ + extension
}

/// Where a signal crash is dumped, named by the signal and the execution
/// counter.
pub open spec fn spec_signaled_file_path(
    work_dir: Seq<char>,
    sig: int,
    execution_count: nat,
    extension: Seq<char>,
) -> Seq<char> {
    work_dir + "/outputs/signaled/"@ + spec_signed_decimal(sig) + "_"@ + spec_padded(
        execution_count,
        9,
    ) + extension
}

/// Where a sanitizer crash is dumped, named by the execution counter and
/// the reporting worker.
pub open spec fn spec_asan_file_path(
    work_dir: Seq<char>,
    execution_count: nat,
    extension: Seq<char>,
    thread_name: Seq<char>,
) -> Seq<char> {
    work_dir + "/outputs/signaled/ASAN_"@ + spec_padded(execution_count, 9) + "_"@ + extension
        + thread_name
}

/// Where a timing-out input is dumped, named by the execution counter.
pub open spec fn spec_timeout_file_path(
    work_dir: Seq<char>,
    execution_count: nat,
    extension: Seq<char>,
) -> Seq<char> {
    work_dir + "/outputs/timeout/"@ + spec_padded(execution_count, 9) + extension
}

/// Build the discovery path of a queue entry.
pub fn queue_file_path(work_dir: &String, id: usize, er: &ExitReason, extension: &String) -> (r:
    String)
    ensures
        r@ == spec_queue_file_path(work_dir@, id as nat, *er, extension@),
{
    proof {
        reveal_strlit("/outputs/queue/id:");
        reveal_strlit(",er:");
    }
    let mut r = String::new();
    r.append(work_dir.as_str());
    r.append("/outputs/queue/id:");
    push_padded(&mut r, id as u64, 9);
    r.append(",er:");
    push_exit_reason_label(&mut r, er);
    r.append(extension.as_str());
    proof {
        assert(r@ =~= spec_queue_file_path(work_dir@, id as nat, *er, extension@));
    }
    r
}

/// Build the post-minimisation path of a queue entry.
pub fn queue_min_file_path(work_dir: &String, id: usize, er: &ExitReason, extension: &String) -> (r:
    String)
    ensures
        r@ == spec_queue_min_file_path(work_dir@, id as nat, *er, extension@),
{
    proof {
        reveal_strlit("/outputs/queue/id:");
        reveal_strlit(",er:");
        reveal_strlit(".min");
    }
    let mut r = String::new();
    r.append(work_dir.as_str());
    r.append("/outputs/queue/id:");
    push_padded(&mut r, id as u64, 9);
    r.append(",er:");
    push_exit_reason_label(&mut r, er);
    r.append(".min");
    r.append(extension.as_str());
    proof {
        assert(r@ =~= spec_queue_min_file_path(work_dir@, id as nat, *er, extension@));
    }
    r
}

/// Build the dump path of a signal crash.
pub fn signaled_file_path(work_dir: &String, sig: i32, execution_count: u64, extension: &String)
    -> (r: String)
    ensures
        r@ == spec_signaled_file_path(work_dir@, sig as int, execution_count as nat, extension@),
{
    proof {
        reveal_strlit("/outputs/signaled/");
        reveal_strlit("_");
    }
    let mut r = String::new();
    r.append(work_dir.as_str());
    r.append("/outputs/signaled/");
    push_signed(&mut r, sig);
    r.append("_");
    push_padded(&mut r, execution_count, 9);
    r.append(extension.as_str());
    proof {
        assert(r@ =~= spec_signaled_file_path(
            work_dir@,
            sig as int,
            execution_count as nat,
            extension@,
        ));
    }
    r
}

/// Build the dump path of a sanitizer crash.
pub fn asan_file_path(
    work_dir: &String,
    execution_count: u64,
    extension: &String,
    thread_name: &String,
) -> (r: String)
    ensures
        r@ == spec_asan_file_path(work_dir@, execution_count as nat, extension@, thread_name@),
{
    proof {
        reveal_strlit("/outputs/signaled/ASAN_");
        reveal_strlit("_");
    }
    let mut r = String::new();
    r.append(work_dir.as_str());
    r.append("/outputs/signaled/ASAN_");
    push_padded(&mut r, execution_count, 9);
    r.append("_");
    r.append(extension.as_str());
    r.append(thread_name.as_str());
    proof {
        assert(r@ =~= spec_asan_file_path(
            work_dir@,
            execution_count as nat,
            extension@,
            thread_name@,
        ));
    }
    r
}

/// Build the dump path of a timing-out input.
pub fn timeout_file_path(work_dir: &String, execution_count: u64, extension: &String) -> (r: String)
    ensures
        r@ == spec_timeout_file_path(work_dir@, execution_count as nat, extension@),
{
    proof {
        reveal_strlit("/outputs/timeout/");
    }
    let mut r = String::new();
    r.append(work_dir.as_str());
    r.append("/outputs/timeout/");
    push_padded(&mut r, execution_count, 9);
    r.append(extension.as_str());
    proof {
        assert(r@ =~= spec_timeout_file_path(work_dir@, execution_count as nat, extension@));
    }
    r
}

} // verus!
