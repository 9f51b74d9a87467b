//! Per-worker bookkeeping around executions of the target.
//!
//! The worker's process machinery runs the target and hands the outcome
//! of each run — exit reason, coverage bitmap, duration — to this type,
//! which owns everything that can be decided from plain values: recent-
//! input deduplication, novelty against the shared accumulators, the
//! determinism re-check, crash accounting, and which file to persist.

use vstd::prelude::*;
use crate::exitreason::{spec_is_crash, ExitReason};
use crate::paths::{asan_file_path, signaled_file_path, spec_asan_file_path,
    spec_signaled_file_path, spec_timeout_file_path, timeout_file_path};
use crate::queue::{fresh_exact, offers_novelty, InputState};
use crate::shared_state::{merge_rel, strictly_ascending, GlobalSharedState};
use crate::tree::Tree;

verus! {

/// Which strategy asked for an execution; discoveries are counted per
/// strategy.
#[derive(Debug, Clone, Copy, PartialEq, Eq, Structural)]
pub enum ExecutionReason {
    Havoc,
    HavocRec,
    Min,
    MinRec,
    Splice,
    Det,
    Gen,
}

/// How many recent unparses each worker remembers for deduplication.
pub const RECENT_INPUTS_CAP: usize = 10000;

/// The per-worker fuzzer state: the recent-inputs window and the
/// per-strategy discovery counters.
pub struct Fuzzer {
    pub last_inputs_ring_buffer: Vec<Vec<u8>>,
    pub target_path: String,
    pub target_args: Vec<String>,
    pub execution_count: u64,
    pub bits_found_by_havoc: u64,
    pub bits_found_by_havoc_rec: u64,
    pub bits_found_by_min: u64,
    pub bits_found_by_min_rec: u64,
    pub bits_found_by_splice: u64,
    pub bits_found_by_det: u64,
    pub bits_found_by_det_afl: u64,
    pub bits_found_by_gen: u64,
    pub asan_found_by_havoc: u64,
    pub asan_found_by_havoc_rec: u64,
    pub asan_found_by_min: u64,
    pub asan_found_by_min_rec: u64,
    pub asan_found_by_splice: u64,
    pub asan_found_by_det: u64,
    pub asan_found_by_det_afl: u64,
    pub asan_found_by_gen: u64,
    pub work_dir: String,
    pub extension: String,
}

/// The byte strings the ring currently remembers.
pub open spec fn ring_views(ring: Seq<Vec<u8>>) -> Seq<Seq<u8>> {
    Seq::new(ring.len(), |j: int| ring[j]@)
}

impl Fuzzer {
    /// These bytes equal a remembered recent unparse.
    pub open spec fn knows(self, bytes: Seq<u8>) -> bool {
        exists|j: int|
            0 <= j < self.last_inputs_ring_buffer@.len() && (#[trigger] self
                .last_inputs_ring_buffer@[j])@ == bytes
    }

    /// The ring never outgrows its window.
    pub open spec fn dedup_wf(self) -> bool {
        self.last_inputs_ring_buffer@.len() <= RECENT_INPUTS_CAP
    }

    /// A worker's fuzzer over a target and a working directory, with an
    /// empty window and zeroed counters.
    pub fn new(path: String, args: Vec<String>, work_dir: String, extension: String) -> (r: Self)
        ensures
            r.last_inputs_ring_buffer@.len() == 0,
            r.target_path == path,
            r.target_args == args,
            r.execution_count == 0,
            r.bits_found_by_havoc == 0,
            r.bits_found_by_havoc_rec == 0,
            r.bits_found_by_min == 0,
            r.bits_found_by_min_rec == 0,
            r.bits_found_by_splice == 0,
            r.bits_found_by_det == 0,
            r.bits_found_by_det_afl == 0,
            r.bits_found_by_gen == 0,
            r.asan_found_by_havoc == 0,
            r.asan_found_by_havoc_rec == 0,
            r.asan_found_by_min == 0,
            r.asan_found_by_min_rec == 0,
            r.asan_found_by_splice == 0,
            r.asan_found_by_det == 0,
            r.asan_found_by_det_afl == 0,
            r.asan_found_by_gen == 0,
            r.work_dir == work_dir,
            r.extension == extension,
            r.dedup_wf(),
    {
        Fuzzer {
            last_inputs_ring_buffer: Vec::new(),
            target_path: path,
            target_args: args,
            execution_count: 0,
            bits_found_by_havoc: 0,
            bits_found_by_havoc_rec: 0,
            bits_found_by_min: 0,
            bits_found_by_min_rec: 0,
            bits_found_by_splice: 0,
            bits_found_by_det: 0,
            bits_found_by_det_afl: 0,
            bits_found_by_gen: 0,
            asan_found_by_havoc: 0,
            asan_found_by_havoc_rec: 0,
            asan_found_by_min: 0,
            asan_found_by_min_rec: 0,
            asan_found_by_splice: 0,
            asan_found_by_det: 0,
            asan_found_by_det_afl: 0,
            asan_found_by_gen: 0,
            work_dir,
            extension,
        }
    }

    /// Note one more run of the target.
    pub fn count_execution(&mut self)
        requires
            old(self).execution_count < u64::MAX,
        ensures
            *final(self) == (Fuzzer {
                execution_count: (old(self).execution_count + 1) as u64,
                ..*old(self)
            }),
    {
        self.execution_count = self.execution_count + 1;
    }

    /// Whether these bytes were tried recently; a novel input is
    /// remembered, evicting the oldest once the window is full.
    fn input_is_known(&mut self, code: &Vec<u8>) -> (r: bool)
        requires
            old(self).dedup_wf(),
        ensures
            final(self).dedup_wf(),
            r == old(self).knows(code@),
            r ==> *final(self) == *old(self),
            !r ==> ring_views(final(self).last_inputs_ring_buffer@) == (if old(
                self,
            ).last_inputs_ring_buffer@.len() == RECENT_INPUTS_CAP {
                ring_views(old(self).last_inputs_ring_buffer@).drop_first()
            } else {
                ring_views(old(self).last_inputs_ring_buffer@)
            }).push(code@),
            !r ==> *final(self) == (Fuzzer {
                last_inputs_ring_buffer: final(self).last_inputs_ring_buffer,
                ..*old(self)
            }),
    {
        let n = self.last_inputs_ring_buffer.len();
        let mut j: usize = 0;
        while j < n
            invariant
                j <= n,
                *self == *old(self),
                old(self).dedup_wf(),
                n == self.last_inputs_ring_buffer@.len(),
                forall|t: int|
                    0 <= t < j ==> (#[trigger] self.last_inputs_ring_buffer@[t])@ != code@,
            decreases n - j,
        {
            if vecs_equal(&self.last_inputs_ring_buffer[j], code) {
                return true;
            }
            j += 1;
        }
        let ghost pre = self.last_inputs_ring_buffer@;
        if self.last_inputs_ring_buffer.len() == RECENT_INPUTS_CAP {
            self.last_inputs_ring_buffer.remove(0);
            proof {
                assert(self.last_inputs_ring_buffer@ =~= pre.drop_first());
            }
        }
        let ghost mid = self.last_inputs_ring_buffer@;
        let copy = copy_bytes(code);
        self.last_inputs_ring_buffer.push(copy);
        proof {
            assert(ring_views(self.last_inputs_ring_buffer@) =~= ring_views(mid).push(code@));
            if pre.len() == RECENT_INPUTS_CAP {
                assert(ring_views(mid) =~= ring_views(pre).drop_first());
            }
        }
        false
    }

    /// The deduplication gate before a mutated input is executed: true
    /// when the unparsed bytes are novel within the recent window, which
    /// then remembers them and expects the caller to run the target;
    /// false repeats are skipped.
    pub fn run_on_with_dedup(&mut self, code: &Vec<u8>) -> (r: bool)
        requires
            old(self).dedup_wf(),
        ensures
            final(self).dedup_wf(),
            r == !old(self).knows(code@),
            !r ==> *final(self) == *old(self),
            r ==> ring_views(final(self).last_inputs_ring_buffer@) == (if old(
                self,
            ).last_inputs_ring_buffer@.len() == RECENT_INPUTS_CAP {
                ring_views(old(self).last_inputs_ring_buffer@).drop_first()
            } else {
                ring_views(old(self).last_inputs_ring_buffer@)
            }).push(code@),
            r ==> *final(self) == (Fuzzer {
                last_inputs_ring_buffer: final(self).last_inputs_ring_buffer,
                ..*old(self)
            }),
    {
        !self.input_is_known(code)
    }

    /// The minimisation oracle's check: every wanted bit is hit in this
    /// run's bitmap.
    pub fn has_bits(&self, run_bitmap: &Vec<u8>, bits: &Vec<usize>) -> (r: bool)
        requires
            forall|k: int|
                0 <= k < bits@.len() ==> (#[trigger] bits@[k]) < run_bitmap@.len(),
        ensures
            r == forall|k: int|
                0 <= k < bits@.len() ==> run_bitmap@[#[trigger] bits@[k] as int] != 0,
    {
        let mut found_all = true;
        let mut k: usize = 0;
        while k < bits.len()
            invariant
                k <= bits@.len(),
                forall|t: int| 0 <= t < bits@.len() ==> (#[trigger] bits@[t]) < run_bitmap@.len(),
                found_all == forall|t: int|
                    0 <= t < k ==> run_bitmap@[#[trigger] bits@[t] as int] != 0,
            decreases bits@.len() - k,
        {
            if run_bitmap[bits[k]] == 0 {
                found_all = false;
            }
            k += 1;
        }
        found_all
    }
}

/// How many extra runs the determinism re-check performs.
pub const DETERMINISM_RERUNS: usize = 5;

/// A proposal is exactly the set of cells the run hit while the
/// accumulator still had them at zero.
pub open spec fn proposal_exact(prop: Seq<usize>, run: Seq<u8>, acc: Seq<u8>) -> bool {
    &&& forall|k: int|
        0 <= k < prop.len() ==> {
            let b = #[trigger] prop[k];
            &&& b < run.len()
            &&& run[b as int] != 0
            &&& acc[b as int] == 0
        }
    &&& forall|i: int|
        0 <= i < run.len() && #[trigger] run[i] != 0 && acc[i] == 0 ==> prop.contains(i as usize)
}

/// The proposal after dropping every bit a rerun did not hit.
pub open spec fn retain_hit(s: Seq<usize>, run: Seq<u8>) -> Seq<usize>
    decreases s.len(),
{
    if s.len() == 0 {
        Seq::empty()
    } else {
        retain_hit(s.drop_last(), run) + (if run[s.last() as int] != 0 {
            seq![s.last()]
        } else {
            Seq::<usize>::empty()
        })
    }
}

/// The proposal after the whole chain of rerun filters, in order.
pub open spec fn survive_all(prop: Seq<usize>, reruns: Seq<Vec<u8>>) -> Seq<usize>
    decreases reruns.len(),
{
    if reruns.len() == 0 {
        prop
    } else {
        retain_hit(survive_all(prop, reruns.drop_last()), reruns.last()@)
    }
}

/// Whatever survives a rerun filter was proposed before and is hit in
/// the rerun.
pub proof fn lemma_retain_hit_sub(s: Seq<usize>, run: Seq<u8>)
    ensures
        forall|j: int|
            0 <= j < retain_hit(s, run).len() ==> s.contains(#[trigger] retain_hit(s, run)[j])
                && run[retain_hit(s, run)[j] as int] != 0,
    decreases s.len(),
{
    if s.len() > 0 {
        let prefix = s.drop_last();
        lemma_retain_hit_sub(prefix, run);
        assert forall|j: int| 0 <= j < retain_hit(s, run).len() implies s.contains(
            #[trigger] retain_hit(s, run)[j],
        ) && run[retain_hit(s, run)[j] as int] != 0 by {
            if j < retain_hit(prefix, run).len() {
                assert(retain_hit(s, run)[j] == retain_hit(prefix, run)[j]);
                let x = retain_hit(prefix, run)[j];
                assert(prefix.contains(x));
                let k = choose|k: int| 0 <= k < prefix.len() && prefix[k] == x;
                assert(s[k] == x);
            } else {
                assert(retain_hit(s, run)[j] == s.last());
                assert(s[s.len() - 1] == s.last());
            }
        }
    }
}

/// Law: the survivors of the whole determinism re-check are a subset of
/// the original proposal.
pub proof fn lemma_survivors_subset(prop: Seq<usize>, reruns: Seq<Vec<u8>>)
    ensures
        forall|x: usize| survive_all(prop, reruns).contains(x) ==> prop.contains(x),
    decreases reruns.len(),
{
    if reruns.len() > 0 {
        let mid = survive_all(prop, reruns.drop_last());
        lemma_survivors_subset(prop, reruns.drop_last());
        lemma_retain_hit_sub(mid, reruns.last()@);
        assert forall|x: usize| survive_all(prop, reruns).contains(x) implies prop.contains(
            x,
        ) by {
            let j = choose|j: int|
                0 <= j < survive_all(prop, reruns).len() && survive_all(prop, reruns)[j] == x;
            assert(mid.contains(x));
        }
    }
}

/// Claim every newly hit cell of a run for an accumulator.
fn merge_into(acc: &mut Vec<u8>, run: &Vec<u8>) -> (res: Vec<usize>)
    requires
        old(acc)@.len() == run@.len(),
    ensures
        merge_rel(old(acc)@, run@, final(acc)@, res@),
        res@.len() > 0 <==> exists|i: int|
            0 <= i < run@.len() && #[trigger] run@[i] != 0 && old(acc)@[i] == 0,
{
    let mut res: Vec<usize> = Vec::new();
    let n = acc.len();
    let mut i: usize = 0;
    while i < n
        invariant
            i <= n,
            n == acc@.len(),
            acc@.len() == old(acc)@.len(),
            old(acc)@.len() == run@.len(),
            forall|t: int|
                0 <= t < n ==> #[trigger] acc@[t] == (if t < i && run@[t] != 0 && old(acc)@[t]
                    == 0 {
                    run@[t]
                } else {
                    old(acc)@[t]
                }),
            forall|k: int|
                0 <= k < res@.len() ==> {
                    let b = #[trigger] res@[k];
                    &&& b < i
                    &&& run@[b as int] != 0
                    &&& old(acc)@[b as int] == 0
                },
            forall|t: int|
                0 <= t < i && #[trigger] run@[t] != 0 && old(acc)@[t] == 0 ==> res@.contains(
                    t as usize,
                ),
            strictly_ascending(res@),
        decreases n - i,
    {
        if run[i] != 0 && acc[i] == 0 {
            let ghost res0 = res@;
            acc.set(i, run[i]);
            res.push(i);
            proof {
                assert forall|t: int|
                    0 <= t < i && #[trigger] run@[t] != 0 && old(acc)@[t] == 0 implies res@
                    .contains(t as usize) by {
                    assert(res0.contains(t as usize));
                    let k = choose|k: int| 0 <= k < res0.len() && res0[k] == t as usize;
                    assert(res@[k] == t as usize);
                }
                assert(res@[res@.len() - 1] == i as usize);
                assert(res@.contains(i as usize));
                assert forall|k: int| 0 <= k < res@.len() - 1 implies #[trigger] res@[k] < res@[k
                    + 1] by {
                    assert(res@[k] == res0[k]);
                    if k < res@.len() - 2 {
                        assert(res@[k + 1] == res0[k + 1]);
                    } else {
                        assert(res@[k + 1] == i as usize);
                    }
                }
            }
        }
        i += 1;
    }
    proof {
        if res@.len() > 0 {
            let b = res@[0];
            assert(run@[b as int] != 0 && old(acc)@[b as int] == 0);
        }
    }
    res
}

impl Fuzzer {
    /// Diff one run's bitmap against the chosen shared accumulator,
    /// claiming every newly hit cell for it; the claimed cells come back
    /// ascending, or nothing when the run covered nothing new.
    pub fn new_bits(&self, g: &mut GlobalSharedState, is_crash: bool, run_bitmap: &Vec<u8>) -> (r:
        Option<Vec<usize>>)
        requires
            run_bitmap@.len() == old(g).accumulator(is_crash).len(),
        ensures
            final(g).accumulator(!is_crash) == old(g).accumulator(!is_crash),
            *final(g) == (GlobalSharedState {
                bitmap_normal: final(g).bitmap_normal,
                bitmap_crash: final(g).bitmap_crash,
                ..*old(g)
            }),
            merge_rel(
                old(g).accumulator(is_crash),
                run_bitmap@,
                final(g).accumulator(is_crash),
                match r {
                    Some(v) => v@,
                    None => Seq::empty(),
                },
            ),
            r is Some <==> exists|i: int|
                0 <= i < run_bitmap@.len() && #[trigger] run_bitmap@[i] != 0 && old(g).accumulator(
                    is_crash,
                )[i] == 0,
            r matches Some(v) ==> v@.len() > 0,
    {
        let res = if is_crash {
            merge_into(&mut g.bitmap_crash, run_bitmap)
        } else {
            merge_into(&mut g.bitmap_normal, run_bitmap)
        };
        if res.len() > 0 {
            Some(res)
        } else {
            proof {
                assert(res@ =~= Seq::<usize>::empty());
            }
            None
        }
    }

    /// One determinism re-check step: drop from the proposal every bit
    /// this rerun did not hit.
    pub fn check_deterministic_behaviour(&self, new_bits: &mut Vec<usize>, run_bitmap: &Vec<u8>)
        requires
            forall|k: int|
                0 <= k < old(new_bits)@.len() ==> (#[trigger] old(new_bits)@[k])
                    < run_bitmap@.len(),
        ensures
            final(new_bits)@ == retain_hit(old(new_bits)@, run_bitmap@),
    {
        let mut filtered: Vec<usize> = Vec::new();
        let n = new_bits.len();
        let mut j: usize = 0;
        while j < n
            invariant
                j <= n,
                n == new_bits@.len(),
                *new_bits == *old(new_bits),
                forall|k: int|
                    0 <= k < new_bits@.len() ==> (#[trigger] new_bits@[k]) < run_bitmap@.len(),
                filtered@ == retain_hit(new_bits@.subrange(0, j as int), run_bitmap@),
            decreases n - j,
        {
            let b = new_bits[j];
            if run_bitmap[b] != 0 {
                filtered.push(b);
            }
            proof {
                let pre = new_bits@.subrange(0, j as int);
                let cur = new_bits@.subrange(0, j + 1 as int);
                assert(cur =~= pre.push(b));
                assert(cur.drop_last() =~= pre);
                assert(filtered@ =~= retain_hit(cur, run_bitmap@));
            }
            j += 1;
        }
        proof {
            assert(new_bits@.subrange(0, new_bits@.len() as int) =~= new_bits@);
        }
        *new_bits = filtered;
    }
}

/// The per-strategy discovery counter of a worker.
pub open spec fn spec_reason_counter(f: Fuzzer, reason: ExecutionReason) -> u64 {
    match reason {
        ExecutionReason::Havoc => f.bits_found_by_havoc,
        ExecutionReason::HavocRec => f.bits_found_by_havoc_rec,
        ExecutionReason::Min => f.bits_found_by_min,
        ExecutionReason::MinRec => f.bits_found_by_min_rec,
        ExecutionReason::Splice => f.bits_found_by_splice,
        ExecutionReason::Det => f.bits_found_by_det,
        ExecutionReason::Gen => f.bits_found_by_gen,
    }
}

/// The worker with one per-strategy discovery counter replaced.
pub open spec fn spec_with_reason_counter(f: Fuzzer, reason: ExecutionReason, v: u64) -> Fuzzer {
    match reason {
        ExecutionReason::Havoc => Fuzzer { bits_found_by_havoc: v, ..f },
        ExecutionReason::HavocRec => Fuzzer { bits_found_by_havoc_rec: v, ..f },
        ExecutionReason::Min => Fuzzer { bits_found_by_min: v, ..f },
        ExecutionReason::MinRec => Fuzzer { bits_found_by_min_rec: v, ..f },
        ExecutionReason::Splice => Fuzzer { bits_found_by_splice: v, ..f },
        ExecutionReason::Det => Fuzzer { bits_found_by_det: v, ..f },
        ExecutionReason::Gen => Fuzzer { bits_found_by_gen: v, ..f },
    }
}

/// Trusted timestamp for the shared status fields.
/// Relies on chrono::Local::now with a fixed format string: the current
/// wall-clock time rendered as `[year-month-day] hour:minute:second`.
/// The value depends on the clock, so nothing is promised of it.
#[verifier::external_body]
fn now_timestamp() -> String {
    chrono::Local::now().format("[%Y-%m-%d] %H:%M:%S").to_string()
}

impl Fuzzer {
    /// Begin handling one run's outcome: merge its bitmap into the
    /// matching accumulator.  The result is the proposal of fresh bits
    /// that must still survive the determinism re-check — or nothing,
    /// when the run was a timeout or covered nothing new.
    pub fn exec_begin(
        &self,
        g: &mut GlobalSharedState,
        exitreason: ExitReason,
        run_bitmap: &Vec<u8>,
    ) -> (r: Option<Vec<usize>>)
        requires
            run_bitmap@.len() == old(g).accumulator(spec_is_crash(exitreason)).len(),
        ensures
            final(g).accumulator(!spec_is_crash(exitreason)) == old(g).accumulator(
                !spec_is_crash(exitreason),
            ),
            *final(g) == (GlobalSharedState {
                bitmap_normal: final(g).bitmap_normal,
                bitmap_crash: final(g).bitmap_crash,
                ..*old(g)
            }),
            forall|i: int|
                0 <= i < run_bitmap@.len() ==> final(g).accumulator(spec_is_crash(exitreason))[i]
                    == (if #[trigger] run_bitmap@[i] != 0 && old(g).accumulator(
                    spec_is_crash(exitreason),
                )[i] == 0 {
                    run_bitmap@[i]
                } else {
                    old(g).accumulator(spec_is_crash(exitreason))[i]
                }),
            r is Some <==> !(exitreason is Timeouted) && exists|i: int|
                0 <= i < run_bitmap@.len() && #[trigger] run_bitmap@[i] != 0 && old(g).accumulator(
                    spec_is_crash(exitreason),
                )[i] == 0,
            r matches Some(v) ==> v@.len() > 0 && strictly_ascending(v@) && proposal_exact(
                v@,
                run_bitmap@,
                old(g).accumulator(spec_is_crash(exitreason)),
            ),
    {
        let is_crash = exitreason.is_crash();
        let nb = self.new_bits(g, is_crash, run_bitmap);
        match nb {
            Some(v) => {
                if matches!(exitreason, ExitReason::Timeouted) {
                    None
                } else {
                    Some(v)
                }
            },
            None => None,
        }
    }

    /// Finish a discovery once the determinism reruns are in: the
    /// proposal is filtered by each rerun's bitmap in order, and when
    /// bits survive, the snapshot taken after the first run is stored in
    /// the queue.  The second component is the queue file to write, if
    /// the queue accepted the item.
    pub fn exec_finish(
        &self,
        g: &mut GlobalSharedState,
        proposal: Vec<usize>,
        rerun_bitmaps: &Vec<Vec<u8>>,
        tree: Tree,
        snapshot: Vec<u8>,
        exitreason: ExitReason,
        execution_time: u32,
    ) -> (r: (Option<Vec<usize>>, Option<String>))
        requires
            old(g).queue.wf(),
            forall|k: int|
                0 <= k < proposal@.len() ==> (#[trigger] proposal@[k]) < snapshot@.len(),
            forall|j: int|
                0 <= j < rerun_bitmaps@.len() ==> (#[trigger] rerun_bitmaps@[j])@.len()
                    == snapshot@.len(),
        ensures
            final(g).queue.wf(),
            r.0 is Some <==> survive_all(proposal@, rerun_bitmaps@).len() > 0,
            r.0 matches Some(v) ==> v@ == survive_all(proposal@, rerun_bitmaps@),
            r.0 matches Some(v) ==> forall|x: usize| v@.contains(x) ==> proposal@.contains(x),
            r.0 is None ==> *final(g) == *old(g) && r.1 is None,
            r.0 is Some ==> {
                &&& (r.1 is Some <==> offers_novelty(old(g).queue, snapshot@))
                &&& r.1 matches Some(p) ==> p@ == crate::paths::spec_queue_file_path(
                    old(g).queue.work_dir@,
                    old(g).queue.current_id as nat,
                    exitreason,
                    old(g).queue.extension@,
                )
                &&& r.1 is Some ==> {
                    let item = final(g).queue.inputs@.last();
                    &&& final(g).queue.inputs@.len() == old(g).queue.inputs@.len() + 1
                    &&& final(g).queue.inputs@.drop_last() == old(g).queue.inputs@
                    &&& item.id == old(g).queue.current_id
                    &&& item.tree == tree
                    &&& item.all_bits == snapshot
                    &&& item.exitreason == exitreason
                    &&& item.execution_time == execution_time
                    &&& item.state == InputState::Init(0)
                    &&& fresh_exact(item.fresh_bits@, snapshot@, old(g).queue)
                }
                &&& r.1 is None ==> final(g).queue == old(g).queue
                &&& *final(g) == (GlobalSharedState { queue: final(g).queue, ..*old(g) })
            },
    {
        let mut new_bits = proposal;
        let ghost prop0 = new_bits@;
        let n = rerun_bitmaps.len();
        let mut j: usize = 0;
        while j < n
            invariant
                j <= n,
                n == rerun_bitmaps@.len(),
                forall|jj: int|
                    0 <= jj < rerun_bitmaps@.len() ==> (#[trigger] rerun_bitmaps@[jj])@.len()
                        == snapshot@.len(),
                new_bits@ == survive_all(prop0, rerun_bitmaps@.subrange(0, j as int)),
                forall|k: int|
                    0 <= k < new_bits@.len() ==> (#[trigger] new_bits@[k]) < snapshot@.len(),
            decreases n - j,
        {
            let ghost before = new_bits@;
            self.check_deterministic_behaviour(&mut new_bits, &rerun_bitmaps[j]);
            proof {
                let pre = rerun_bitmaps@.subrange(0, j as int);
                let cur = rerun_bitmaps@.subrange(0, j + 1 as int);
                assert(cur =~= pre.push(rerun_bitmaps@[j as int]));
                assert(cur.drop_last() =~= pre);
                assert(new_bits@ == survive_all(prop0, cur));
                lemma_retain_hit_sub(before, rerun_bitmaps@[j as int]@);
                assert forall|k: int| 0 <= k < new_bits@.len() implies (#[trigger] new_bits@[k])
                    < snapshot@.len() by {
                    let x = new_bits@[k];
                    assert(before.contains(x));
                    let t = choose|t: int| 0 <= t < before.len() && before[t] == x;
                }
            }
            j += 1;
        }
        proof {
            assert(rerun_bitmaps@.subrange(0, rerun_bitmaps@.len() as int) =~= rerun_bitmaps@);
            lemma_survivors_subset(prop0, rerun_bitmaps@);
        }
        if new_bits.len() > 0 {
            let path = g.queue.add(tree, snapshot, exitreason, execution_time);
            (Some(new_bits), path)
        } else {
            (None, None)
        }
    }

    /// Dispatch on one run's outcome: count the discovery for the
    /// strategy that produced it, stamp the shared state, and name the
    /// file the input must be dumped to, if any.
    pub fn run_on(
        &mut self,
        g: &mut GlobalSharedState,
        new_bits: &Option<Vec<usize>>,
        exitreason: ExitReason,
        exec_reason: ExecutionReason,
        thread_name: &String,
    ) -> (r: Option<String>)
        requires
            exitreason == ExitReason::Normal(223) && new_bits is Some ==> old(g).total_found_asan
                < u64::MAX,
            (exitreason matches ExitReason::Signaled(_)) && new_bits is Some ==> old(
                g,
            ).total_found_sig < u64::MAX,
            (exitreason matches ExitReason::Normal(c) && c != 223) && new_bits is Some
                ==> spec_reason_counter(*old(self), exec_reason) < u64::MAX,
        ensures
            exitreason == ExitReason::Normal(223) ==> {
                &&& *final(self) == *old(self)
                &&& new_bits is Some ==> {
                    &&& final(g).total_found_asan == old(g).total_found_asan + 1
                    &&& *final(g) == (GlobalSharedState {
                        total_found_asan: final(g).total_found_asan,
                        last_found_asan: final(g).last_found_asan,
                        ..*old(g)
                    })
                    &&& r matches Some(p) && p@ == spec_asan_file_path(
                        old(self).work_dir@,
                        old(self).execution_count as nat,
                        old(self).extension@,
                        thread_name@,
                    )
                }
                &&& new_bits is None ==> r is None && *final(g) == *old(g)
            },
            (exitreason matches ExitReason::Normal(c) && c != 223) ==> {
                &&& r is None
                &&& *final(g) == *old(g)
                &&& new_bits is Some ==> *final(self) == spec_with_reason_counter(
                    *old(self),
                    exec_reason,
                    (spec_reason_counter(*old(self), exec_reason) + 1) as u64,
                )
                &&& new_bits is None ==> *final(self) == *old(self)
            },
            exitreason is Timeouted ==> {
                &&& *final(self) == *old(self)
                &&& *final(g) == (GlobalSharedState {
                    last_timeout: final(g).last_timeout,
                    ..*old(g)
                })
                &&& r matches Some(p) && p@ == spec_timeout_file_path(
                    old(self).work_dir@,
                    old(self).execution_count as nat,
                    old(self).extension@,
                )
            },
            (exitreason matches ExitReason::Signaled(sig)) ==> {
                &&& *final(self) == *old(self)
                &&& new_bits is Some ==> {
                    &&& final(g).total_found_sig == old(g).total_found_sig + 1
                    &&& *final(g) == (GlobalSharedState {
                        total_found_sig: final(g).total_found_sig,
                        last_found_sig: final(g).last_found_sig,
                        ..*old(g)
                    })
                    &&& r matches Some(p) && p@ == spec_signaled_file_path(
                        old(self).work_dir@,
                        exitreason->Signaled_0 as int,
                        old(self).execution_count as nat,
                        old(self).extension@,
                    )
                }
                &&& new_bits is None ==> r is None && *final(g) == *old(g)
            },
            (exitreason matches ExitReason::Stopped(_)) ==> r is None && *final(g) == *old(g)
                && *final(self) == *old(self),
    {
        match exitreason {
            ExitReason::Normal(code) => {
                if code == 223 {
                    if new_bits.is_some() {
                        g.total_found_asan = g.total_found_asan + 1;
                        g.last_found_asan = now_timestamp();
                        Some(
                            asan_file_path(
                                &self.work_dir,
                                self.execution_count,
                                &self.extension,
                                thread_name,
                            ),
                        )
                    } else {
                        None
                    }
                } else {
                    if new_bits.is_some() {
                        match exec_reason {
                            ExecutionReason::Havoc => {
                                self.bits_found_by_havoc = self.bits_found_by_havoc + 1;
                            },
                            ExecutionReason::HavocRec => {
                                self.bits_found_by_havoc_rec = self.bits_found_by_havoc_rec + 1;
                            },
                            ExecutionReason::Min => {
                                self.bits_found_by_min = self.bits_found_by_min + 1;
                            },
                            ExecutionReason::MinRec => {
                                self.bits_found_by_min_rec = self.bits_found_by_min_rec + 1;
                            },
                            ExecutionReason::Splice => {
                                self.bits_found_by_splice = self.bits_found_by_splice + 1;
                            },
                            ExecutionReason::Det => {
                                self.bits_found_by_det = self.bits_found_by_det + 1;
                            },
                            ExecutionReason::Gen => {
                                self.bits_found_by_gen = self.bits_found_by_gen + 1;
                            },
                        }
                    }
                    None
                }
            },
            ExitReason::Timeouted => {
                g.last_timeout = now_timestamp();
                Some(timeout_file_path(&self.work_dir, self.execution_count, &self.extension))
            },
            ExitReason::Signaled(sig) => {
                if new_bits.is_some() {
                    g.total_found_sig = g.total_found_sig + 1;
                    g.last_found_sig = now_timestamp();
                    Some(
                        signaled_file_path(
                            &self.work_dir,
                            sig,
                            self.execution_count,
                            &self.extension,
                        ),
                    )
                } else {
                    None
                }
            },
            ExitReason::Stopped(_) => None,
        }
    }
}

/// One worker's periodic merge into the shared state: the execution
/// delta since the last merge is added, the rate contribution is
/// replaced, and every per-strategy discovery counter the worker
/// accumulated is moved over and reset, as the worker loop does after
/// each queue interaction.
pub fn merge_counters(
    g: &mut GlobalSharedState,
    fuzzer: &mut Fuzzer,
    old_execution_count: &mut u64,
    old_executions_per_sec: &mut u32,
    current_eps: u32,
)
    requires
        *old(old_execution_count) <= old(fuzzer).execution_count,
        old(g).execution_count + (old(fuzzer).execution_count - *old(old_execution_count))
            <= u64::MAX,
        old(g).average_executions_per_sec + current_eps <= u32::MAX,
        old(g).average_executions_per_sec + current_eps >= *old(old_executions_per_sec),
        old(g).bits_found_by_havoc + old(fuzzer).bits_found_by_havoc <= u64::MAX,
        old(g).bits_found_by_gen + old(fuzzer).bits_found_by_gen <= u64::MAX,
        old(g).bits_found_by_min + old(fuzzer).bits_found_by_min <= u64::MAX,
        old(g).bits_found_by_det + old(fuzzer).bits_found_by_det <= u64::MAX,
        old(g).bits_found_by_splice + old(fuzzer).bits_found_by_splice <= u64::MAX,
        old(g).bits_found_by_havoc_rec + old(fuzzer).bits_found_by_havoc_rec <= u64::MAX,
        old(g).bits_found_by_min_rec + old(fuzzer).bits_found_by_min_rec <= u64::MAX,
    ensures
        final(g).execution_count == old(g).execution_count + (old(fuzzer).execution_count - *old(
            old_execution_count,
        )),
        *final(old_execution_count) == old(fuzzer).execution_count,
        final(g).average_executions_per_sec == old(g).average_executions_per_sec + current_eps
            - *old(old_executions_per_sec),
        *final(old_executions_per_sec) == current_eps,
        final(g).bits_found_by_havoc == old(g).bits_found_by_havoc + old(
            fuzzer,
        ).bits_found_by_havoc,
        final(g).bits_found_by_gen == old(g).bits_found_by_gen + old(fuzzer).bits_found_by_gen,
        final(g).bits_found_by_min == old(g).bits_found_by_min + old(fuzzer).bits_found_by_min,
        final(g).bits_found_by_det == old(g).bits_found_by_det + old(fuzzer).bits_found_by_det,
        final(g).bits_found_by_splice == old(g).bits_found_by_splice + old(
            fuzzer,
        ).bits_found_by_splice,
        final(g).bits_found_by_havoc_rec == old(g).bits_found_by_havoc_rec + old(
            fuzzer,
        ).bits_found_by_havoc_rec,
        final(g).bits_found_by_min_rec == old(g).bits_found_by_min_rec + old(
            fuzzer,
        ).bits_found_by_min_rec,
        *final(g) == (GlobalSharedState {
            execution_count: final(g).execution_count,
            average_executions_per_sec: final(g).average_executions_per_sec,
            bits_found_by_havoc: final(g).bits_found_by_havoc,
            bits_found_by_gen: final(g).bits_found_by_gen,
            bits_found_by_min: final(g).bits_found_by_min,
            bits_found_by_det: final(g).bits_found_by_det,
            bits_found_by_splice: final(g).bits_found_by_splice,
            bits_found_by_havoc_rec: final(g).bits_found_by_havoc_rec,
            bits_found_by_min_rec: final(g).bits_found_by_min_rec,
            ..*old(g)
        }),
        *final(fuzzer) == (Fuzzer {
            bits_found_by_havoc: 0,
            bits_found_by_gen: 0,
            bits_found_by_min: 0,
            bits_found_by_det: 0,
            bits_found_by_splice: 0,
            bits_found_by_havoc_rec: 0,
            bits_found_by_min_rec: 0,
            ..*old(fuzzer)
        }),
{
    g.execution_count = g.execution_count + (fuzzer.execution_count - *old_execution_count);
    *old_execution_count = fuzzer.execution_count;
    g.average_executions_per_sec = g.average_executions_per_sec + current_eps;
    g.average_executions_per_sec = g.average_executions_per_sec - *old_executions_per_sec;
    *old_executions_per_sec = current_eps;
    if fuzzer.bits_found_by_havoc > 0 {
        g.bits_found_by_havoc = g.bits_found_by_havoc + fuzzer.bits_found_by_havoc;
        fuzzer.bits_found_by_havoc = 0;
    }
    if fuzzer.bits_found_by_gen > 0 {
        g.bits_found_by_gen = g.bits_found_by_gen + fuzzer.bits_found_by_gen;
        fuzzer.bits_found_by_gen = 0;
    }
    if fuzzer.bits_found_by_min > 0 {
        g.bits_found_by_min = g.bits_found_by_min + fuzzer.bits_found_by_min;
        fuzzer.bits_found_by_min = 0;
    }
    if fuzzer.bits_found_by_det > 0 {
        g.bits_found_by_det = g.bits_found_by_det + fuzzer.bits_found_by_det;
        fuzzer.bits_found_by_det = 0;
    }
    if fuzzer.bits_found_by_splice > 0 {
        g.bits_found_by_splice = g.bits_found_by_splice + fuzzer.bits_found_by_splice;
        fuzzer.bits_found_by_splice = 0;
    }
    if fuzzer.bits_found_by_havoc_rec > 0 {
        g.bits_found_by_havoc_rec = g.bits_found_by_havoc_rec + fuzzer.bits_found_by_havoc_rec;
        fuzzer.bits_found_by_havoc_rec = 0;
    }
    if fuzzer.bits_found_by_min_rec > 0 {
        g.bits_found_by_min_rec = g.bits_found_by_min_rec + fuzzer.bits_found_by_min_rec;
        fuzzer.bits_found_by_min_rec = 0;
    }
}

/// Byte-wise equality of two buffers.
fn vecs_equal(a: &Vec<u8>, b: &Vec<u8>) -> (r: bool)
    ensures
        r == (a@ == b@),
{
    if a.len() != b.len() {
        proof {
            assert(a@ != b@);
        }
        return false;
    }
    let mut j: usize = 0;
    while j < a.len()
        invariant
            j <= a@.len(),
            a@.len() == b@.len(),
            forall|t: int| 0 <= t < j ==> a@[t] == b@[t],
        decreases a@.len() - j,
    {
        if a[j] != b[j] {
            return false;
        }
        j += 1;
    }
    proof {
        assert(a@ =~= b@);
    }
    true
}

/// A fresh buffer with the same bytes.
fn copy_bytes(a: &Vec<u8>) -> (r: Vec<u8>)
    ensures
        r@ == a@,
{
    let mut r: Vec<u8> = Vec::new();
    let mut j: usize = 0;
    while j < a.len()
        invariant
            j <= a@.len(),
            r@ == a@.subrange(0, j as int),
        decreases a@.len() - j,
    {
        r.push(a[j]);
        proof {
            assert(r@ =~= a@.subrange(0, j + 1));
        }
        j += 1;
    }
    proof {
        assert(r@ =~= a@);
    }
    r
}

} // verus!
