//! The state all workers share under one lock: the queue, the two
//! coverage accumulators (one for crashing and one for ordinary runs),
//! and the global counters the status view reads.

use vstd::prelude::*;
use vstd::string::*;
use crate::queue::Queue;

verus! {

/// Process-wide shared accumulators.  The crash and no-crash coverage
/// accumulators exist from construction on, so a lookup by the crash
/// flag is total.
pub struct GlobalSharedState {
    pub queue: Queue,
    pub bitmap_normal: Vec<u8>,
    pub bitmap_crash: Vec<u8>,
    pub execution_count: u64,
    pub average_executions_per_sec: u32,
    pub bits_found_by_havoc: u64,
    pub bits_found_by_havoc_rec: u64,
    pub bits_found_by_min: u64,
    pub bits_found_by_min_rec: u64,
    pub bits_found_by_splice: u64,
    pub bits_found_by_det: u64,
    pub bits_found_by_gen: u64,
    pub asan_found_by_havoc: u64,
    pub asan_found_by_havoc_rec: u64,
    pub asan_found_by_min: u64,
    pub asan_found_by_min_rec: u64,
    pub asan_found_by_splice: u64,
    pub asan_found_by_det: u64,
    pub asan_found_by_gen: u64,
    pub last_found_asan: String,
    pub last_found_sig: String,
    pub last_timeout: String,
    pub state_saved: String,
    pub total_found_asan: u64,
    pub total_found_sig: u64,
}

/// A sequence of indices in strictly ascending order, hence free of
/// duplicates.
pub open spec fn strictly_ascending(s: Seq<usize>) -> bool {
    forall|k: int| 0 <= k < s.len() - 1 ==> #[trigger] s[k] < s[k + 1]
}

/// How one run's bitmap merges into an accumulator: every hit cell whose
/// accumulator byte was zero is claimed — the accumulator takes the run's
/// byte there and the cell's index is reported, each cell once and in
/// ascending order — and every other cell keeps its value.  Once
/// non-zero, an accumulator cell stays non-zero.
pub open spec fn merge_rel(
    old_acc: Seq<u8>,
    run: Seq<u8>,
    new_acc: Seq<u8>,
    res: Seq<usize>,
) -> bool {
    &&& strictly_ascending(res)
    &&& new_acc.len() == old_acc.len()
    &&& forall|i: int|
        0 <= i < old_acc.len() ==> #[trigger] new_acc[i] == (if run[i] != 0 && old_acc[i] == 0 {
            run[i]
        } else {
            old_acc[i]
        })
    &&& forall|k: int|
        0 <= k < res.len() ==> {
            let b = #[trigger] res[k];
            &&& b < old_acc.len()
            &&& run[b as int] != 0
            &&& old_acc[b as int] == 0
        }
    &&& forall|i: int|
        0 <= i < old_acc.len() && #[trigger] run[i] != 0 && old_acc[i] == 0 ==> res.contains(
            i as usize,
        )
}

impl GlobalSharedState {
    /// The accumulator for crashing or for ordinary runs.
    pub open spec fn accumulator(self, is_crash: bool) -> Seq<u8> {
        if is_crash {
            self.bitmap_crash@
        } else {
            self.bitmap_normal@
        }
    }

    /// A fresh shared state: an empty queue and two zeroed accumulators
    /// of the configured size.
    pub fn new(work_dir: String, bitmap_size: usize, extension: String) -> (r: Self)
        ensures
            r.queue.inputs@.len() == 0,
            r.queue.processed@.len() == 0,
            r.queue.bit_to_inputs@.len() == 0,
            r.queue.current_id == 0,
            r.queue.work_dir == work_dir,
            r.queue.extension == extension,
            r.queue.wf(),
            r.bitmap_normal@.len() == bitmap_size,
            r.bitmap_crash@.len() == bitmap_size,
            forall|i: int| 0 <= i < bitmap_size ==> r.bitmap_normal@[i] == 0,
            forall|i: int| 0 <= i < bitmap_size ==> r.bitmap_crash@[i] == 0,
            r.execution_count == 0,
            r.average_executions_per_sec == 0,
            r.bits_found_by_havoc == 0,
            r.bits_found_by_havoc_rec == 0,
            r.bits_found_by_min == 0,
            r.bits_found_by_min_rec == 0,
            r.bits_found_by_splice == 0,
            r.bits_found_by_det == 0,
            r.bits_found_by_gen == 0,
            r.asan_found_by_havoc == 0,
            r.asan_found_by_havoc_rec == 0,
            r.asan_found_by_min == 0,
            r.asan_found_by_min_rec == 0,
            r.asan_found_by_splice == 0,
            r.asan_found_by_det == 0,
            r.asan_found_by_gen == 0,
            r.last_found_asan@ == "Not found yet."@,
            r.last_found_sig@ == "Not found yet."@,
            r.last_timeout@ == "No Timeout yet."@,
            r.state_saved@ == "State not saved yet."@,
            r.total_found_asan == 0,
            r.total_found_sig == 0,
    {
        let queue = Queue::new(work_dir, extension);
        GlobalSharedState {
            queue,
            bitmap_normal: vec![0u8; bitmap_size],
            bitmap_crash: vec![0u8; bitmap_size],
            execution_count: 0,
            average_executions_per_sec: 0,
            bits_found_by_havoc: 0,
            bits_found_by_havoc_rec: 0,
            bits_found_by_min: 0,
            bits_found_by_min_rec: 0,
            bits_found_by_splice: 0,
            bits_found_by_det: 0,
            bits_found_by_gen: 0,
            asan_found_by_havoc: 0,
            asan_found_by_havoc_rec: 0,
            asan_found_by_min: 0,
            asan_found_by_min_rec: 0,
            asan_found_by_splice: 0,
            asan_found_by_det: 0,
            asan_found_by_gen: 0,
            last_found_asan: String::from_str("Not found yet."),
            last_found_sig: String::from_str("Not found yet."),
            last_timeout: String::from_str("No Timeout yet."),
            state_saved: String::from_str("State not saved yet."),
            total_found_asan: 0,
            total_found_sig: 0,
        }
    }
}

/// Law: merging never clears an accumulator cell — once non-zero, a
/// cell stays exactly as it is, so observed coverage only grows.
pub proof fn lemma_accumulator_monotonic(
    old_acc: Seq<u8>,
    run: Seq<u8>,
    new_acc: Seq<u8>,
    res: Seq<usize>,
)
    requires
        merge_rel(old_acc, run, new_acc, res),
    ensures
        forall|i: int| 0 <= i < old_acc.len() && old_acc[i] != 0 ==> new_acc[i] == old_acc[i],
        forall|i: int| 0 <= i < old_acc.len() && #[trigger] new_acc[i] == 0 ==> old_acc[i] == 0,
{
}

/// Law: once a merge claims a bit as fresh, the accumulator holds it,
/// and however many runs later merge into the same accumulator, none can
/// claim that bit again — across workers, serialised merges give each
/// fresh bit exactly one claimant.
pub proof fn lemma_fresh_bit_claimed_once(
    acc0: Seq<u8>,
    run1: Seq<u8>,
    acc1: Seq<u8>,
    res1: Seq<usize>,
    run2: Seq<u8>,
    acc2: Seq<u8>,
    res2: Seq<usize>,
    b: usize,
)
    requires
        merge_rel(acc0, run1, acc1, res1),
        merge_rel(acc1, run2, acc2, res2),
        res1.contains(b),
    ensures
        acc1[b as int] != 0,
        !res2.contains(b),
{
    let k = choose|k: int| 0 <= k < res1.len() && res1[k] == b;
    assert(res1[k] == b);
    assert(run1[b as int] != 0 && acc0[b as int] == 0);
    assert(acc1[b as int] == run1[b as int]);
    if res2.contains(b) {
        let k2 = choose|k2: int| 0 <= k2 < res2.len() && res2[k2] == b;
        assert(res2[k2] == b);
        assert(acc1[b as int] == 0);
    }
}

} // verus!
