//! The per-item scheduling state machine.
//!
//! An item advances through minimisation windows (`Init`), then cycles
//! of deterministic rule mutation (`Det`), and ends in `Random`, where
//! only the random strategies still run.  The strategies themselves are
//! driven by the grammar engine; this module owns the transitions and
//! the decisions that depend on their reported outcomes.

use vstd::prelude::*;
use crate::paths::{queue_min_file_path, spec_queue_min_file_path};
use crate::queue::{InputState, QueueItem};
use crate::tree::RecursionInfo;

verus! {

/// How many mutator indices one minimisation window covers.
pub const MINIMIZATION_WINDOW: usize = 200;

/// The state an item moves to, given where it stands and whether the
/// strategy of that state reported its work done.
pub open spec fn spec_next_state(s: InputState, done: bool, n_det: usize) -> InputState {
    match s {
        InputState::Init(k) => if done {
            InputState::Det(0, 0)
        } else {
            InputState::Init((k + MINIMIZATION_WINDOW) as usize)
        },
        InputState::Det(cycle, k) => if done {
            if cycle == n_det {
                InputState::Random
            } else {
                InputState::Det((cycle + 1) as usize, 0)
            }
        } else {
            InputState::Det(cycle, (k + 1) as usize)
        },
        InputState::Random => InputState::Random,
    }
}

/// The strict order along which the scheduler advances: later windows
/// within `Init`, then `Det` cycles in lexicographic order, then
/// `Random`.
pub open spec fn state_order_lt(a: InputState, b: InputState) -> bool {
    match (a, b) {
        (InputState::Init(k1), InputState::Init(k2)) => k1 < k2,
        (InputState::Init(_), InputState::Det(_, _)) => true,
        (InputState::Init(_), InputState::Random) => true,
        (InputState::Det(c1, k1), InputState::Det(c2, k2)) => c1 < c2 || (c1 == c2 && k1 < k2),
        (InputState::Det(_, _), InputState::Random) => true,
        _ => false,
    }
}

/// Advance one scheduling step: consume the outcome the state's own
/// strategy reported and move the item to its next state.  Returns
/// whether the random strategies — splice, havoc and havoc-recursion —
/// run on this tick as well, which they do in every state but `Init`.
pub fn process_input(
    inp: &mut QueueItem,
    strategy_done: bool,
    number_of_deterministic_mutations: usize,
) -> (run_random: bool)
    requires
        old(inp).state matches InputState::Init(k) ==> k + MINIMIZATION_WINDOW <= usize::MAX,
        old(inp).state matches InputState::Det(c, k) ==> k < usize::MAX && (c
            == number_of_deterministic_mutations || c < usize::MAX),
    ensures
        final(inp).state == spec_next_state(
            old(inp).state,
            strategy_done,
            number_of_deterministic_mutations,
        ),
        *final(inp) == (QueueItem { state: final(inp).state, ..*old(inp) }),
        run_random == !(old(inp).state is Init),
{
    match inp.state {
        InputState::Init(start_index) => {
            let end_index = start_index + MINIMIZATION_WINDOW;
            if strategy_done {
                inp.state = InputState::Det(0, 0);
            } else {
                inp.state = InputState::Init(end_index);
            }
            false
        },
        InputState::Det(cycle, start_index) => {
            let end_index = start_index + 1;
            if strategy_done {
                if cycle == number_of_deterministic_mutations {
                    inp.state = InputState::Random;
                } else {
                    inp.state = InputState::Det(cycle + 1, 0);
                }
            } else {
                inp.state = InputState::Det(cycle, end_index);
            }
            true
        },
        InputState::Random => true,
    }
}

/// The decision tail of minimisation: when both the plain and the
/// recursive minimiser report their window exhausted, the item is
/// minimal — its recursion sites are cached on it, and the returned
/// path names the `.min` queue file the caller must rewrite.  Until
/// then the item is untouched.
pub fn minimize(
    inp: &mut QueueItem,
    min_simple: bool,
    min_rec: bool,
    recursions: Option<Vec<RecursionInfo>>,
    work_dir: &String,
    extension: &String,
) -> (r: Option<String>)
    ensures
        r is Some <==> min_simple && min_rec,
        min_simple && min_rec ==> {
            &&& r matches Some(p) && p@ == spec_queue_min_file_path(
                work_dir@,
                old(inp).id as nat,
                old(inp).exitreason,
                extension@,
            )
            &&& *final(inp) == (QueueItem { recursions: recursions, ..*old(inp) })
        },
        !(min_simple && min_rec) ==> r is None && *final(inp) == *old(inp),
{
    if min_simple && min_rec {
        inp.recursions = recursions;
        Some(queue_min_file_path(work_dir, inp.id, &inp.exitreason, extension))
    } else {
        None
    }
}

/// Law: scheduling transitions form a directed acyclic chain — from any
/// state but `Random` the next state is strictly later in the order
/// `Init` windows, `Det` cycles, `Random`; and `Random` is absorbing.
/// No state is ever revisited.
pub proof fn lemma_scheduler_advances(s: InputState, done: bool, n_det: usize)
    requires
        s matches InputState::Init(k) ==> k + MINIMIZATION_WINDOW <= usize::MAX,
        s matches InputState::Det(c, k) ==> k < usize::MAX && (c == n_det || c < usize::MAX),
    ensures
        s is Random ==> spec_next_state(s, done, n_det) == InputState::Random,
        !(s is Random) ==> state_order_lt(s, spec_next_state(s, done, n_det)),
{
}

/// Law: the scheduler's order is a strict order — irreflexive and
/// transitive — so a strictly advancing chain never revisits a state.
pub proof fn lemma_state_order_strict(a: InputState, b: InputState, c: InputState)
    ensures
        !state_order_lt(a, a),
        state_order_lt(a, b) && state_order_lt(b, c) ==> state_order_lt(a, c),
{
}

/// Law: an item whose last deterministic cycle reports its work done is
/// scheduled as `Random` next.
pub proof fn lemma_final_det_cycle_goes_random(k: usize, n_det: usize)
    ensures
        spec_next_state(InputState::Det(n_det, k), true, n_det) == InputState::Random,
{
}

} // verus!
