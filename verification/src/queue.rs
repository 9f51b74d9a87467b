//! The coverage-driven input queue.
//!
//! Discovered inputs wait in `inputs`, move to `processed` after one
//! scheduling round, and `bit_to_inputs` indexes, per coverage bit, which
//! stored items still contribute it.  The index justifies keeping every
//! file on disk: an item whose bits are all covered by others is obsolete.

use vstd::prelude::*;
use vstd::pervasive::VecAdditionalExecFns;
use crate::exitreason::ExitReason;
use crate::paths::{queue_file_path, spec_queue_file_path};
use crate::tree::{RecursionInfo, Tree};

verus! {

/// Where an item stands in the scheduler: minimisation windows, then
/// cycles of deterministic mutation, then random strategies for good.
#[derive(Debug, Clone, Copy, PartialEq, Eq, Structural)]
pub enum InputState {
    Init(usize),
    Det(usize, usize),
    Random,
}

/// One discovered input: its derivation, the bits it was first to cover,
/// its full coverage snapshot, and its scheduling state.
#[derive(Debug, Clone)]
pub struct QueueItem {
    pub id: usize,
    pub tree: Tree,
    pub fresh_bits: Vec<usize>,
    pub all_bits: Vec<u8>,
    pub exitreason: ExitReason,
    pub state: InputState,
    pub recursions: Option<Vec<RecursionInfo>>,
    pub execution_time: u32,
}

/// Every bit an item claims as fresh is one its own coverage snapshot
/// shows as hit.
pub open spec fn item_wf(item: QueueItem) -> bool {
    forall|k: int|
        0 <= k < item.fresh_bits@.len() ==> {
            let b = #[trigger] item.fresh_bits@[k];
            b < item.all_bits@.len() && item.all_bits@[b as int] != 0
        }
}

impl QueueItem {
    /// A freshly discovered item: it starts in the first minimisation
    /// window, with its recursion sites not yet computed.
    pub fn new(
        id: usize,
        tree: Tree,
        fresh_bits: Vec<usize>,
        all_bits: Vec<u8>,
        exitreason: ExitReason,
        execution_time: u32,
    ) -> (r: Self)
        ensures
            r == (QueueItem {
                id,
                tree,
                fresh_bits,
                all_bits,
                exitreason,
                state: InputState::Init(0),
                recursions: None::<Vec<RecursionInfo>>,
                execution_time,
            }),
    {
        QueueItem {
            id,
            tree,
            fresh_bits,
            all_bits,
            exitreason,
            state: InputState::Init(0),
            recursions: None,
            execution_time,
        }
    }
}

/// The queue of discovered inputs and its bit-to-inputs index.
pub struct Queue {
    pub inputs: Vec<QueueItem>,
    pub processed: Vec<QueueItem>,
    pub bit_to_inputs: Vec<Vec<usize>>,
    pub current_id: usize,
    pub work_dir: String,
    pub extension: String,
}

/// The queue owns an item at position `k` that shows bit `i` in its
/// snapshot and carries the registered id.
pub open spec fn witness_at(items: Seq<QueueItem>, k: int, i: int, id: usize) -> bool {
    &&& items[k].id == id
    &&& i < items[k].all_bits@.len()
    &&& items[k].all_bits@[i] != 0
}

/// Some owned item shows bit `i` in its snapshot and is registered for
/// it under `id`.
pub open spec fn spec_has_witness(items: Seq<QueueItem>, i: int, id: usize) -> bool {
    exists|k: int| 0 <= k < items.len() && #[trigger] witness_at(items, k, i, id)
}

/// The snapshot offers a bit that is hit and not yet covered by the
/// index: the novelty condition `add` accepts.
pub open spec fn offers_novelty(q: Queue, all_bits: Seq<u8>) -> bool {
    exists|i: int| 0 <= i < all_bits.len() && #[trigger] all_bits[i] != 0 && !q.covered(i)
}

/// The fresh set is exactly the hit bits the index did not cover at
/// discovery time.
pub open spec fn fresh_exact(fresh: Seq<usize>, all_bits: Seq<u8>, q_old: Queue) -> bool {
    &&& forall|k: int|
        0 <= k < fresh.len() ==> {
            let b = #[trigger] fresh[k];
            &&& b < all_bits.len()
            &&& all_bits[b as int] != 0
            &&& !q_old.covered(b as int)
        }
    &&& forall|i: int|
        0 <= i < all_bits.len() && #[trigger] all_bits[i] != 0 && !q_old.covered(i)
            ==> fresh.contains(i as usize)
}

impl Queue {
    /// All items the queue owns, the unprocessed first.
    pub open spec fn items(self) -> Seq<QueueItem> {
        self.inputs@ + self.processed@
    }

    /// A bit is covered when some stored item is registered for it.
    pub open spec fn covered(self, i: int) -> bool {
        0 <= i < self.bit_to_inputs@.len() && self.bit_to_inputs@[i]@.len() > 0
    }

    /// Well-formedness: every item claims as fresh only bits of its own
    /// snapshot, and every registration in the index is justified by an
    /// owned item that shows the bit.
    pub open spec fn wf(self) -> bool {
        &&& forall|k: int| 0 <= k < self.items().len() ==> item_wf(#[trigger] self.items()[k])
        &&& forall|i: int, j: int|
            0 <= i < self.bit_to_inputs@.len() && 0 <= j < self.bit_to_inputs@[i]@.len()
                ==> spec_has_witness(self.items(), i, #[trigger] self.bit_to_inputs@[i]@[j])
    }

    /// An empty queue over a working directory and a file extension.
    pub fn new(work_dir: String, extension: String) -> (r: Self)
        ensures
            r.inputs@.len() == 0,
            r.processed@.len() == 0,
            r.bit_to_inputs@.len() == 0,
            r.current_id == 0,
            r.work_dir == work_dir,
            r.extension == extension,
            r.wf(),
    {
        let r = Queue {
            inputs: Vec::new(),
            processed: Vec::new(),
            bit_to_inputs: Vec::new(),
            current_id: 0,
            work_dir,
            extension,
        };
        proof {
            assert(r.items() =~= Seq::<QueueItem>::empty());
        }
        r
    }

    /// How many items wait unprocessed.
    pub fn len(&self) -> (r: usize)
        ensures
            r == self.inputs@.len(),
    {
        self.inputs.len()
    }

    /// Start a new round: every processed item becomes available again,
    /// after the still unprocessed ones.
    pub fn new_round(&mut self)
        requires
            old(self).wf(),
        ensures
            final(self).inputs@ == old(self).inputs@ + old(self).processed@,
            final(self).processed@.len() == 0,
            final(self).bit_to_inputs == old(self).bit_to_inputs,
            final(self).current_id == old(self).current_id,
            final(self).work_dir == old(self).work_dir,
            final(self).extension == old(self).extension,
            final(self).wf(),
    {
        self.inputs.append(&mut self.processed);
        proof {
            assert(self.items() =~= old(self).items());
        }
    }

    /// Persist a discovery.  A snapshot whose hit bits are all covered
    /// already offers nothing and is rejected; otherwise the item is
    /// stored under the next id, every hit bit is registered for it, and
    /// the path its unparsed bytes belong under is returned for the
    /// caller to write.
    pub fn add(
        &mut self,
        tree: Tree,
        all_bits: Vec<u8>,
        exitreason: ExitReason,
        execution_time: u32,
    ) -> (r: Option<String>)
        requires
            old(self).wf(),
        ensures
            final(self).wf(),
            r is Some <==> offers_novelty(*old(self), all_bits@),
            r is None ==> *final(self) == *old(self),
            r matches Some(p) ==> p@ == spec_queue_file_path(
                old(self).work_dir@,
                old(self).current_id as nat,
                exitreason,
                old(self).extension@,
            ),
            r is Some ==> {
                let item = final(self).inputs@.last();
                &&& final(self).inputs@.len() == old(self).inputs@.len() + 1
                &&& final(self).inputs@.drop_last() == old(self).inputs@
                &&& item.id == old(self).current_id
                &&& item.tree == tree
                &&& item.all_bits == all_bits
                &&& item.exitreason == exitreason
                &&& item.execution_time == execution_time
                &&& item.state == InputState::Init(0)
                &&& item.recursions is None
                &&& fresh_exact(item.fresh_bits@, all_bits@, *old(self))
            },
            r is Some ==> forall|i: int|
                0 <= i < all_bits@.len() && #[trigger] all_bits@[i] != 0 ==> {
                    &&& final(self).covered(i)
                    &&& final(self).bit_to_inputs@[i]@.contains(old(self).current_id)
                },
            r is Some ==> final(self).bit_to_inputs@.len() == (if all_bits@.len() > old(self).bit_to_inputs@.len() {
                all_bits@.len()
            } else {
                old(self).bit_to_inputs@.len()
            }),
            r is Some ==> forall|i: int|
                0 <= i < final(self).bit_to_inputs@.len() ==> (#[trigger] final(self).bit_to_inputs@[i])@ == {
                    let before = if i < old(self).bit_to_inputs@.len() {
                        old(self).bit_to_inputs@[i]@
                    } else {
                        Seq::<usize>::empty()
                    };
                    if i < all_bits@.len() && all_bits@[i] != 0 {
                        before.push(old(self).current_id)
                    } else {
                        before
                    }
                },
            r is Some ==> final(self).current_id == (if old(self).current_id == usize::MAX {
                0usize
            } else {
                (old(self).current_id + 1) as usize
            }),
            final(self).processed == old(self).processed,
            final(self).work_dir == old(self).work_dir,
            final(self).extension == old(self).extension,
    {
        if !self.offers_novelty_check(&all_bits) {
            return None;
        }
        let ghost q_orig = *self;

        // Widen the index so every snapshot bit has an entry.
        while self.bit_to_inputs.len() < all_bits.len()
            invariant
                self.inputs == q_orig.inputs,
                self.processed == q_orig.processed,
                self.current_id == q_orig.current_id,
                self.work_dir == q_orig.work_dir,
                self.extension == q_orig.extension,
                self.bit_to_inputs@.len() >= q_orig.bit_to_inputs@.len(),
                self.bit_to_inputs@.len() <= (if all_bits@.len() > q_orig.bit_to_inputs@.len() {
                    all_bits@.len()
                } else {
                    q_orig.bit_to_inputs@.len()
                }),
                forall|t: int|
                    0 <= t < self.bit_to_inputs@.len() ==> (#[trigger] self.bit_to_inputs@[t])@
                        == (if t < q_orig.bit_to_inputs@.len() {
                        q_orig.bit_to_inputs@[t]@
                    } else {
                        Seq::<usize>::empty()
                    }),
            decreases all_bits@.len() - self.bit_to_inputs@.len(),
        {
            self.bit_to_inputs.push(Vec::new());
        }
        let ghost q_ext = *self;
        proof {
            assert forall|t: int| q_ext.covered(t) == q_orig.covered(t) by {
                if 0 <= t < q_orig.bit_to_inputs@.len() {
                    assert(q_ext.bit_to_inputs@[t]@ == q_orig.bit_to_inputs@[t]@);
                } else if 0 <= t < q_ext.bit_to_inputs@.len() {
                    assert(q_ext.bit_to_inputs@[t]@ == Seq::<usize>::empty());
                }
            }
        }

        // The bits this snapshot is first to cover.
        let mut fresh_bits: Vec<usize> = Vec::new();
        let mut i: usize = 0;
        while i < all_bits.len()
            invariant
                i <= all_bits@.len(),
                *self == q_ext,
                self.bit_to_inputs@.len() >= all_bits@.len(),
                forall|t: int| q_ext.covered(t) == q_orig.covered(t),
                forall|k: int|
                    0 <= k < fresh_bits@.len() ==> {
                        let b = #[trigger] fresh_bits@[k];
                        &&& b < i
                        &&& all_bits@[b as int] != 0
                        &&& !q_orig.covered(b as int)
                    },
                forall|t: int|
                    0 <= t < i && #[trigger] all_bits@[t] != 0 && !q_orig.covered(t)
                        ==> fresh_bits@.contains(t as usize),
            decreases all_bits@.len() - i,
        {
            if all_bits[i] != 0 && self.bit_to_inputs[i].len() == 0 {
                let ghost fb0 = fresh_bits@;
                fresh_bits.push(i);
                proof {
                    assert forall|t: int|
                        0 <= t < i && #[trigger] all_bits@[t] != 0 && !q_orig.covered(t)
                            implies fresh_bits@.contains(t as usize) by {
                        assert(fb0.contains(t as usize));
                        let k = choose|k: int| 0 <= k < fb0.len() && fb0[k] == t as usize;
                        assert(fresh_bits@[k] == t as usize);
                    }
                    assert(fresh_bits@[fresh_bits@.len() - 1] == i as usize);
                    assert(fresh_bits@.contains(i as usize));
                }
            }
            i += 1;
        }

        let path = queue_file_path(&self.work_dir, self.current_id, &exitreason, &self.extension);
        let id = self.current_id;

        // Register the new id for every hit bit.
        let mut t: usize = 0;
        while t < all_bits.len()
            invariant
                t <= all_bits@.len(),
                all_bits@.len() <= self.bit_to_inputs@.len(),
                id == q_ext.current_id,
                self.inputs == q_ext.inputs,
                self.processed == q_ext.processed,
                self.current_id == q_ext.current_id,
                self.work_dir == q_ext.work_dir,
                self.extension == q_ext.extension,
                self.bit_to_inputs@.len() == q_ext.bit_to_inputs@.len(),
                forall|u: int|
                    0 <= u < self.bit_to_inputs@.len() ==> (#[trigger] self.bit_to_inputs@[u])@
                        == (if u < t && all_bits@[u] != 0 {
                        q_ext.bit_to_inputs@[u]@.push(id)
                    } else {
                        q_ext.bit_to_inputs@[u]@
                    }),
            decreases all_bits@.len() - t,
        {
            if all_bits[t] != 0 {
                let entry = vstd::std_specs::vec::vec_index_mut(&mut self.bit_to_inputs, t);
                entry.push(id);
            }
            t += 1;
        }

        // Store the item itself.
        let item = QueueItem::new(id, tree, fresh_bits, all_bits, exitreason, execution_time);
        self.inputs.push(item);

        // The counter wraps rather than overflow.
        if self.current_id == usize::MAX {
            self.current_id = 0;
        } else {
            self.current_id = self.current_id + 1;
        }

        proof {
            let q_old = *old(self);
            let items_new = self.items();
            let stored = self.inputs@.last();
            assert(q_orig == q_old);
            assert(items_new =~= q_old.inputs@.push(stored) + q_old.processed@);
            assert(self.inputs@.drop_last() =~= q_old.inputs@);

            // Every stored item is still well-formed, and the new one is.
            assert forall|k: int| 0 <= k < items_new.len() implies item_wf(
                #[trigger] items_new[k],
            ) by {
                let old_items = q_old.items();
                if k < q_old.inputs@.len() {
                    assert(items_new[k] == old_items[k]);
                    assert(item_wf(old_items[k]));
                } else if k == q_old.inputs@.len() {
                    assert(items_new[k] == stored);
                } else {
                    assert(items_new[k] == old_items[k - 1]);
                    assert(item_wf(old_items[k - 1]));
                }
            }

            // Every registration still has its witness.
            assert forall|i2: int, j2: int|
                0 <= i2 < self.bit_to_inputs@.len() && 0 <= j2 < self.bit_to_inputs@[i2]@.len()
                    implies spec_has_witness(
                items_new,
                i2,
                #[trigger] self.bit_to_inputs@[i2]@[j2],
            ) by {
                let idv = self.bit_to_inputs@[i2]@[j2];
                let registered_now = i2 < all_bits@.len() && all_bits@[i2] != 0;
                if registered_now && j2 == self.bit_to_inputs@[i2]@.len() - 1 {
                    // The registration made here: the stored item is the witness.
                    assert(self.bit_to_inputs@[i2]@ == q_ext.bit_to_inputs@[i2]@.push(id));
                    assert(idv == id);
                    let kw = q_old.inputs@.len() as int;
                    assert(items_new[kw] == stored);
                    assert(witness_at(items_new, kw, i2, idv));
                } else {
                    // An older registration: its entry existed before.
                    assert(self.bit_to_inputs@[i2]@[j2] == q_ext.bit_to_inputs@[i2]@[j2]);
                    if i2 < q_orig.bit_to_inputs@.len() {
                        assert(q_ext.bit_to_inputs@[i2]@ == q_orig.bit_to_inputs@[i2]@);
                        assert(idv == q_old.bit_to_inputs@[i2]@[j2]);
                        assert(spec_has_witness(q_old.items(), i2, idv));
                        lemma_witness_after_insert(
                            q_old.inputs@,
                            q_old.processed@,
                            stored,
                            i2,
                            idv,
                        );
                    } else {
                        assert(q_ext.bit_to_inputs@[i2]@.len() == 0);
                        assert(false);
                    }
                }
            }

            // The promised registration of every hit bit.
            assert forall|i2: int|
                0 <= i2 < all_bits@.len() && #[trigger] all_bits@[i2] != 0 implies self.covered(i2)
                    && self.bit_to_inputs@[i2]@.contains(q_old.current_id) by {
                assert(self.bit_to_inputs@[i2]@ == q_ext.bit_to_inputs@[i2]@.push(id));
                let last = self.bit_to_inputs@[i2]@.len() - 1;
                assert(self.bit_to_inputs@[i2]@[last] == id);
                assert(self.bit_to_inputs@[i2]@.contains(q_old.current_id));
            }
        }
        Some(path)
    }

    /// Take the most recently discovered unprocessed item and strike its
    /// id from every index entry; until `finished` returns it, the worker
    /// owns it.
    pub fn pop(&mut self) -> (r: Option<QueueItem>)
        requires
            old(self).wf(),
        ensures
            final(self).wf(),
            old(self).inputs@.len() == 0 ==> {
                &&& r is None
                &&& final(self).inputs@ == old(self).inputs@
                &&& final(self).processed == old(self).processed
                &&& final(self).bit_to_inputs == old(self).bit_to_inputs
                &&& final(self).current_id == old(self).current_id
                &&& final(self).work_dir == old(self).work_dir
                &&& final(self).extension == old(self).extension
            },
            old(self).inputs@.len() > 0 ==> {
                &&& r == Some(old(self).inputs@.last())
                &&& final(self).inputs@ == old(self).inputs@.drop_last()
                &&& final(self).processed == old(self).processed
                &&& final(self).current_id == old(self).current_id
                &&& final(self).work_dir == old(self).work_dir
                &&& final(self).extension == old(self).extension
                &&& final(self).bit_to_inputs@.len() == old(self).bit_to_inputs@.len()
                &&& forall|u: int|
                    0 <= u < final(self).bit_to_inputs@.len()
                        ==> (#[trigger] final(self).bit_to_inputs@[u])@ == remove_id(
                        old(self).bit_to_inputs@[u]@,
                        old(self).inputs@.last().id,
                    )
            },
            r matches Some(it) ==> item_wf(it),
    {
        let option = self.inputs.pop();
        match option {
            None => {
                proof {
                    assert(self.items() =~= old(self).items());
                }
                None
            },
            Some(item) => {
                let id = item.id;
                let ghost q0 = *self;
                let mut k: usize = 0;
                while k < self.bit_to_inputs.len()
                    invariant
                        k <= self.bit_to_inputs@.len(),
                        self.bit_to_inputs@.len() == q0.bit_to_inputs@.len(),
                        self.inputs == q0.inputs,
                        self.processed == q0.processed,
                        self.current_id == q0.current_id,
                        self.work_dir == q0.work_dir,
                        self.extension == q0.extension,
                        forall|u: int|
                            0 <= u < self.bit_to_inputs@.len()
                                ==> (#[trigger] self.bit_to_inputs@[u])@ == (if u < k {
                                remove_id(q0.bit_to_inputs@[u]@, id)
                            } else {
                                q0.bit_to_inputs@[u]@
                            }),
                    decreases self.bit_to_inputs@.len() - k,
                {
                    let mut filtered: Vec<usize> = Vec::new();
                    let n = self.bit_to_inputs[k].len();
                    let mut j: usize = 0;
                    while j < n
                        invariant
                            j <= n,
                            k < self.bit_to_inputs@.len(),
                            n == self.bit_to_inputs@[k as int]@.len(),
                            filtered@ == remove_id(
                                self.bit_to_inputs@[k as int]@.subrange(0, j as int),
                                id,
                            ),
                        decreases n - j,
                    {
                        let ghost list = self.bit_to_inputs@[k as int]@;
                        let v = self.bit_to_inputs[k][j];
                        if v != id {
                            filtered.push(v);
                        }
                        proof {
                            let pre = list.subrange(0, j as int);
                            let cur = list.subrange(0, j + 1 as int);
                            assert(cur =~= pre.push(v));
                            assert(cur.drop_last() =~= pre);
                            assert(remove_id(cur, id) == remove_id(pre, id) + (if v == id {
                                Seq::<usize>::empty()
                            } else {
                                seq![v]
                            }));
                            assert(filtered@ =~= remove_id(cur, id));
                        }
                        j += 1;
                    }
                    proof {
                        assert(self.bit_to_inputs@[k as int]@.subrange(
                            0,
                            self.bit_to_inputs@[k as int]@.len() as int,
                        ) =~= self.bit_to_inputs@[k as int]@);
                    }
                    self.bit_to_inputs.set(k, filtered);
                    k += 1;
                }

                proof {
                    let q_old = *old(self);
                    let items_new = self.items();
                    let items_old = q_old.items();
                    let p = q_old.inputs@.len() - 1;
                    assert(self.inputs@ =~= q_old.inputs@.drop_last());
                    assert(items_new =~= q_old.inputs@.drop_last() + q_old.processed@);

                    assert(item_wf(item)) by {
                        assert(items_old[p] == item);
                        assert(item_wf(items_old[p]));
                    }

                    assert forall|k2: int| 0 <= k2 < items_new.len() implies item_wf(
                        #[trigger] items_new[k2],
                    ) by {
                        if k2 < p {
                            assert(items_new[k2] == items_old[k2]);
                            assert(item_wf(items_old[k2]));
                        } else {
                            assert(items_new[k2] == items_old[k2 + 1]);
                            assert(item_wf(items_old[k2 + 1]));
                        }
                    }

                    assert forall|i2: int, j2: int|
                        0 <= i2 < self.bit_to_inputs@.len() && 0 <= j2
                            < self.bit_to_inputs@[i2]@.len() implies spec_has_witness(
                        items_new,
                        i2,
                        #[trigger] self.bit_to_inputs@[i2]@[j2],
                    ) by {
                        let idv = self.bit_to_inputs@[i2]@[j2];
                        let old_list = q_old.bit_to_inputs@[i2]@;
                        assert(self.bit_to_inputs@[i2]@ == remove_id(old_list, id));
                        lemma_remove_id_sub(old_list, id);
                        assert(idv != id);
                        assert(old_list.contains(idv));
                        let j3 = choose|j3: int| 0 <= j3 < old_list.len() && old_list[j3] == idv;
                        assert(q_old.bit_to_inputs@[i2]@[j3] == idv);
                        assert(spec_has_witness(items_old, i2, idv));
                        lemma_witness_after_remove_last(
                            q_old.inputs@,
                            q_old.processed@,
                            i2,
                            idv,
                        );
                    }
                }
                Some(item)
            },
        }
    }

    /// Give a processed item back.  When every bit of its snapshot is
    /// covered without it, the item is obsolete: it is dropped and the
    /// path of its on-disk file is returned for the caller to unlink.
    /// Otherwise its fresh set is recomputed against the index as it
    /// stands now, its bits are registered again, and it joins
    /// `processed`.
    pub fn finished(&mut self, item: QueueItem) -> (r: Option<String>)
        requires
            old(self).wf(),
        ensures
            final(self).wf(),
            r is Some <==> !offers_novelty(*old(self), item.all_bits@),
            r matches Some(p) ==> p@ == spec_queue_file_path(
                old(self).work_dir@,
                item.id as nat,
                item.exitreason,
                old(self).extension@,
            ) && *final(self) == *old(self),
            r is None ==> {
                &&& final(self).inputs == old(self).inputs
                &&& final(self).processed@.len() == old(self).processed@.len() + 1
                &&& final(self).processed@.drop_last() == old(self).processed@
                &&& {
                    let stored = final(self).processed@.last();
                    &&& stored.id == item.id
                    &&& stored.tree == item.tree
                    &&& stored.all_bits == item.all_bits
                    &&& stored.exitreason == item.exitreason
                    &&& stored.state == item.state
                    &&& stored.recursions == item.recursions
                    &&& stored.execution_time == item.execution_time
                    &&& fresh_exact(stored.fresh_bits@, item.all_bits@, *old(self))
                }
                &&& final(self).current_id == old(self).current_id
                &&& final(self).work_dir == old(self).work_dir
                &&& final(self).extension == old(self).extension
                &&& forall|i: int|
                    0 <= i < item.all_bits@.len() && #[trigger] item.all_bits@[i] != 0 ==> {
                        &&& final(self).covered(i)
                        &&& final(self).bit_to_inputs@[i]@.contains(item.id)
                    }
                &&& final(self).bit_to_inputs@.len() == (if item.all_bits@.len() > old(self).bit_to_inputs@.len() {
                    item.all_bits@.len()
                } else {
                    old(self).bit_to_inputs@.len()
                })
                &&& forall|i: int|
                    0 <= i < final(self).bit_to_inputs@.len() ==> (#[trigger] final(self).bit_to_inputs@[i])@ == {
                        let before = if i < old(self).bit_to_inputs@.len() {
                            old(self).bit_to_inputs@[i]@
                        } else {
                            Seq::<usize>::empty()
                        };
                        if i < item.all_bits@.len() && item.all_bits@[i] != 0 {
                            before.push(item.id)
                        } else {
                            before
                        }
                    }
            },
    {
        if !self.offers_novelty_check(&item.all_bits) {
            return Some(
                queue_file_path(&self.work_dir, item.id, &item.exitreason, &self.extension),
            );
        }
        let ghost q_orig = *self;

        // Widen the index so every snapshot bit has an entry.
        while self.bit_to_inputs.len() < item.all_bits.len()
            invariant
                self.inputs == q_orig.inputs,
                self.processed == q_orig.processed,
                self.current_id == q_orig.current_id,
                self.work_dir == q_orig.work_dir,
                self.extension == q_orig.extension,
                self.bit_to_inputs@.len() >= q_orig.bit_to_inputs@.len(),
                self.bit_to_inputs@.len() <= (if item.all_bits@.len()
                    > q_orig.bit_to_inputs@.len() {
                    item.all_bits@.len()
                } else {
                    q_orig.bit_to_inputs@.len()
                }),
                forall|t: int|
                    0 <= t < self.bit_to_inputs@.len() ==> (#[trigger] self.bit_to_inputs@[t])@
                        == (if t < q_orig.bit_to_inputs@.len() {
                        q_orig.bit_to_inputs@[t]@
                    } else {
                        Seq::<usize>::empty()
                    }),
            decreases item.all_bits@.len() - self.bit_to_inputs@.len(),
        {
            self.bit_to_inputs.push(Vec::new());
        }
        let ghost q_ext = *self;
        proof {
            assert forall|t: int| q_ext.covered(t) == q_orig.covered(t) by {
                if 0 <= t < q_orig.bit_to_inputs@.len() {
                    assert(q_ext.bit_to_inputs@[t]@ == q_orig.bit_to_inputs@[t]@);
                } else if 0 <= t < q_ext.bit_to_inputs@.len() {
                    assert(q_ext.bit_to_inputs@[t]@ == Seq::<usize>::empty());
                }
            }
        }

        // The fresh set is recomputed against the index as it stands now:
        // the bits this item alone still contributes.
        let mut fresh_bits: Vec<usize> = Vec::new();
        let mut i: usize = 0;
        while i < item.all_bits.len()
            invariant
                i <= item.all_bits@.len(),
                *self == q_ext,
                self.bit_to_inputs@.len() >= item.all_bits@.len(),
                forall|t: int| q_ext.covered(t) == q_orig.covered(t),
                forall|k: int|
                    0 <= k < fresh_bits@.len() ==> {
                        let b = #[trigger] fresh_bits@[k];
                        &&& b < i
                        &&& item.all_bits@[b as int] != 0
                        &&& !q_orig.covered(b as int)
                    },
                forall|t: int|
                    0 <= t < i && #[trigger] item.all_bits@[t] != 0 && !q_orig.covered(t)
                        ==> fresh_bits@.contains(t as usize),
            decreases item.all_bits@.len() - i,
        {
            if item.all_bits[i] != 0 && self.bit_to_inputs[i].len() == 0 {
                let ghost fb0 = fresh_bits@;
                fresh_bits.push(i);
                proof {
                    assert forall|t: int|
                        0 <= t < i && #[trigger] item.all_bits@[t] != 0 && !q_orig.covered(t)
                            implies fresh_bits@.contains(t as usize) by {
                        assert(fb0.contains(t as usize));
                        let k = choose|k: int| 0 <= k < fb0.len() && fb0[k] == t as usize;
                        assert(fresh_bits@[k] == t as usize);
                    }
                    assert(fresh_bits@[fresh_bits@.len() - 1] == i as usize);
                    assert(fresh_bits@.contains(i as usize));
                }
            }
            i += 1;
        }
        let ghost fresh_view = fresh_bits@;
        let mut item = item;
        item.fresh_bits = fresh_bits;

        // Register the item again for every hit bit.
        let id = item.id;
        let mut t: usize = 0;
        while t < item.all_bits.len()
            invariant
                t <= item.all_bits@.len(),
                item.all_bits@.len() <= self.bit_to_inputs@.len(),
                self.inputs == q_ext.inputs,
                self.processed == q_ext.processed,
                self.current_id == q_ext.current_id,
                self.work_dir == q_ext.work_dir,
                self.extension == q_ext.extension,
                self.bit_to_inputs@.len() == q_ext.bit_to_inputs@.len(),
                forall|u: int|
                    0 <= u < self.bit_to_inputs@.len() ==> (#[trigger] self.bit_to_inputs@[u])@
                        == (if u < t && item.all_bits@[u] != 0 {
                        q_ext.bit_to_inputs@[u]@.push(id)
                    } else {
                        q_ext.bit_to_inputs@[u]@
                    }),
            decreases item.all_bits@.len() - t,
        {
            if item.all_bits[t] != 0 {
                let entry = vstd::std_specs::vec::vec_index_mut(&mut self.bit_to_inputs, t);
                entry.push(id);
            }
            t += 1;
        }

        let ghost all_bits_view = item.all_bits@;
        let ghost item_g = item;
        self.processed.push(item);

        proof {
            let q_old = *old(self);
            assert(q_orig == q_old);
            let items_new = self.items();
            let items_old = q_old.items();
            let stored = self.processed@.last();
            assert(stored == item_g);
            assert(stored.fresh_bits@ == fresh_view);
            assert(items_new =~= items_old.push(stored));

            assert forall|k: int| 0 <= k < items_new.len() implies item_wf(
                #[trigger] items_new[k],
            ) by {
                if k < items_old.len() {
                    assert(items_new[k] == items_old[k]);
                    assert(item_wf(items_old[k]));
                } else {
                    assert(items_new[k] == stored);
                    assert(stored.fresh_bits@ == fresh_view);
                }
            }

            assert forall|i2: int, j2: int|
                0 <= i2 < self.bit_to_inputs@.len() && 0 <= j2 < self.bit_to_inputs@[i2]@.len()
                    implies spec_has_witness(
                items_new,
                i2,
                #[trigger] self.bit_to_inputs@[i2]@[j2],
            ) by {
                let idv = self.bit_to_inputs@[i2]@[j2];
                let registered_now = i2 < all_bits_view.len() && all_bits_view[i2] != 0;
                if registered_now && j2 == self.bit_to_inputs@[i2]@.len() - 1 {
                    assert(self.bit_to_inputs@[i2]@ == q_ext.bit_to_inputs@[i2]@.push(id));
                    assert(idv == id);
                    let kw = items_old.len() as int;
                    assert(items_new[kw] == stored);
                    assert(witness_at(items_new, kw, i2, idv));
                } else {
                    assert(self.bit_to_inputs@[i2]@[j2] == q_ext.bit_to_inputs@[i2]@[j2]);
                    if i2 < q_orig.bit_to_inputs@.len() {
                        assert(q_ext.bit_to_inputs@[i2]@ == q_orig.bit_to_inputs@[i2]@);
                        assert(idv == q_old.bit_to_inputs@[i2]@[j2]);
                        assert(spec_has_witness(items_old, i2, idv));
                        let k = choose|k: int|
                            0 <= k < items_old.len() && #[trigger] witness_at(
                                items_old,
                                k,
                                i2,
                                idv,
                            );
                        assert(items_new[k] == items_old[k]);
                        assert(witness_at(items_new, k, i2, idv));
                    } else {
                        assert(q_ext.bit_to_inputs@[i2]@.len() == 0);
                        assert(false);
                    }
                }
            }

            assert forall|i2: int|
                0 <= i2 < all_bits_view.len() && #[trigger] all_bits_view[i2] != 0 implies self
                    .covered(i2) && self.bit_to_inputs@[i2]@.contains(id) by {
                assert(self.bit_to_inputs@[i2]@ == q_ext.bit_to_inputs@[i2]@.push(id));
                let last = self.bit_to_inputs@[i2]@.len() - 1;
                assert(self.bit_to_inputs@[i2]@[last] == id);
                assert(self.bit_to_inputs@[i2]@.contains(id));
            }
        }
        None
    }

    /// True when the snapshot hits some bit the index does not cover.
    fn offers_novelty_check(&self, all_bits: &Vec<u8>) -> (r: bool)
        ensures
            r == offers_novelty(*self, all_bits@),
    {
        let mut i: usize = 0;
        let mut found = false;
        while i < all_bits.len()
            invariant
                i <= all_bits@.len(),
                found ==> offers_novelty(*self, all_bits@),
                !found ==> forall|t: int|
                    0 <= t < i && #[trigger] all_bits@[t] != 0 ==> self.covered(t),
            decreases all_bits@.len() - i,
        {
            if all_bits[i] != 0 {
                let is_covered = i < self.bit_to_inputs.len() && self.bit_to_inputs[i].len() > 0;
                if !is_covered {
                    found = true;
                    proof {
                        assert(all_bits@[i as int] != 0 && !self.covered(i as int));
                    }
                }
            }
            i += 1;
        }
        found
    }
}

/// Inserting an item at the seam of the two stores keeps every witness.
proof fn lemma_witness_after_insert(
    inputs: Seq<QueueItem>,
    processed: Seq<QueueItem>,
    item: QueueItem,
    i: int,
    id: usize,
)
    requires
        spec_has_witness(inputs + processed, i, id),
    ensures
        spec_has_witness(inputs.push(item) + processed, i, id),
{
    let old_items = inputs + processed;
    let new_items = inputs.push(item) + processed;
    let k = choose|k: int| 0 <= k < old_items.len() && #[trigger] witness_at(old_items, k, i, id);
    if k < inputs.len() {
        assert(new_items[k] == old_items[k]);
        assert(witness_at(new_items, k, i, id));
    } else {
        assert(new_items[k + 1] == old_items[k]);
        assert(witness_at(new_items, k + 1, i, id));
    }
}

/// The sequence with every occurrence of `id` removed, order kept.
pub open spec fn remove_id(s: Seq<usize>, id: usize) -> Seq<usize>
    decreases s.len(),
{
    if s.len() == 0 {
        Seq::empty()
    } else {
        remove_id(s.drop_last(), id) + (if s.last() == id {
            Seq::<usize>::empty()
        } else {
            seq![s.last()]
        })
    }
}

/// Whatever survives `remove_id` differs from `id` and came from the
/// original sequence.
proof fn lemma_remove_id_sub(s: Seq<usize>, id: usize)
    ensures
        forall|j: int|
            0 <= j < remove_id(s, id).len() ==> (#[trigger] remove_id(s, id)[j]) != id
                && s.contains(remove_id(s, id)[j]),
    decreases s.len(),
{
    if s.len() > 0 {
        let prefix = s.drop_last();
        lemma_remove_id_sub(prefix, id);
        assert forall|j: int| 0 <= j < remove_id(s, id).len() implies (#[trigger] remove_id(
            s,
            id,
        )[j]) != id && s.contains(remove_id(s, id)[j]) by {
            if j < remove_id(prefix, id).len() {
                assert(remove_id(s, id)[j] == remove_id(prefix, id)[j]);
                let x = remove_id(prefix, id)[j];
                assert(prefix.contains(x));
                let k = choose|k: int| 0 <= k < prefix.len() && prefix[k] == x;
                assert(s[k] == x);
            } else {
                assert(remove_id(s, id)[j] == s.last());
                assert(s[s.len() - 1] == s.last());
            }
        }
    }
}

/// Removing the last unprocessed item keeps every witness that is not
/// that item itself.
proof fn lemma_witness_after_remove_last(
    inputs: Seq<QueueItem>,
    processed: Seq<QueueItem>,
    i: int,
    id: usize,
)
    requires
        inputs.len() > 0,
        spec_has_witness(inputs + processed, i, id),
        inputs.last().id != id,
    ensures
        spec_has_witness(inputs.drop_last() + processed, i, id),
{
    let old_items = inputs + processed;
    let new_items = inputs.drop_last() + processed;
    let k = choose|k: int| 0 <= k < old_items.len() && #[trigger] witness_at(old_items, k, i, id);
    let p = inputs.len() - 1;
    if k < p {
        assert(new_items[k] == old_items[k]);
        assert(witness_at(new_items, k, i, id));
    } else if k == p {
        assert(old_items[k] == inputs.last());
        assert(false);
    } else {
        assert(new_items[k - 1] == old_items[k]);
        assert(witness_at(new_items, k - 1, i, id));
    }
}

/// Law: an item the queue owns claims as fresh only bits its own
/// coverage snapshot shows as hit.
pub proof fn lemma_owned_item_fresh_bits_within_coverage(q: Queue, k: int)
    requires
        q.wf(),
        0 <= k < q.items().len(),
    ensures
        item_wf(q.items()[k]),
{
}

/// Law: every bit the index covers is contributed by at least one item
/// the queue owns whose snapshot shows it, registered under that item's
/// id — the in-memory half of the durable-file guarantee.
pub proof fn lemma_covered_bit_has_owner(q: Queue, i: int)
    requires
        q.wf(),
        q.covered(i),
    ensures
        spec_has_witness(q.items(), i, q.bit_to_inputs@[i]@[0]),
{
    assert(0 <= i < q.bit_to_inputs@.len() && 0 < q.bit_to_inputs@[i]@.len());
}

} // verus!
