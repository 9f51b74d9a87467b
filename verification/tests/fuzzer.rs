use nautilus::exitreason::ExitReason;
use nautilus::fuzzer::{merge_counters, ExecutionReason, Fuzzer, RECENT_INPUTS_CAP};
use nautilus::ids::{NodeID, RuleID};
use nautilus::shared_state::GlobalSharedState;
use nautilus::tree::Tree;

fn tiny_tree() -> Tree {
    Tree { rules: vec![RuleID(0)], sizes: vec![1], paren: vec![NodeID(0)] }
}

fn worker() -> Fuzzer {
    Fuzzer::new(
        String::from("/bin/target"),
        vec![],
        String::from("wd"),
        String::from(".txt"),
    )
}

fn shared(bitmap_size: usize) -> GlobalSharedState {
    GlobalSharedState::new(String::from("wd"), bitmap_size, String::from(".txt"))
}

#[test]
fn dedup_skips_repeats() {
    let mut f = worker();
    // A novel input runs; the same bytes again are skipped; different
    // bytes run.
    assert!(f.run_on_with_dedup(&b"deadbeef".to_vec()));
    assert!(!f.run_on_with_dedup(&b"deadbeef".to_vec()));
    assert!(f.run_on_with_dedup(&b"deadbeeg".to_vec()));
    assert!(!f.run_on_with_dedup(&b"deadbeeg".to_vec()));
}

#[test]
fn dedup_window_evicts_the_oldest() {
    let mut f = worker();
    assert!(f.run_on_with_dedup(&vec![255, 255, 255]));
    // Fill the window with distinct two-byte inputs.
    for n in 0..RECENT_INPUTS_CAP {
        let code = vec![(n / 256) as u8, (n % 256) as u8];
        assert!(f.run_on_with_dedup(&code));
    }
    // The very first input fell out of the window and counts as novel
    // again.
    assert!(f.run_on_with_dedup(&vec![255, 255, 255]));
    // A recent one is still known.
    assert!(!f.run_on_with_dedup(&vec![0, 7]));
}

#[test]
fn has_bits_checks_every_wanted_bit() {
    let f = worker();
    let bitmap = vec![0, 2, 0, 1];
    assert!(f.has_bits(&bitmap, &vec![1, 3]));
    assert!(!f.has_bits(&bitmap, &vec![1, 2]));
    assert!(f.has_bits(&bitmap, &vec![]));
}

#[test]
fn new_bits_claims_each_cell_once() {
    let f = worker();
    let mut g = shared(4);
    let run = vec![0, 3, 0, 9];
    // The first worker to merge claims the hit cells.
    let first = f.new_bits(&mut g, false, &run);
    assert_eq!(first.unwrap(), vec![1, 3]);
    assert_eq!(g.bitmap_normal, vec![0, 3, 0, 9]);
    // The same coverage merged again — the concurrent discoverer —
    // claims nothing.
    let second = f.new_bits(&mut g, false, &run);
    assert!(second.is_none());
    // The crash accumulator is independent.
    let crash = f.new_bits(&mut g, true, &run);
    assert_eq!(crash.unwrap(), vec![1, 3]);
}

#[test]
fn zero_bitmap_offers_nothing() {
    let f = worker();
    let mut g = shared(4);
    let r = f.exec_begin(&mut g, ExitReason::Normal(0), &vec![0, 0, 0, 0]);
    assert!(r.is_none());
    assert_eq!(g.queue.len(), 0);
    assert_eq!(g.bitmap_normal, vec![0, 0, 0, 0]);
}

#[test]
fn timeouts_merge_but_never_queue() {
    let f = worker();
    let mut g = shared(4);
    // The timeout still updates the accumulator but proposes nothing, so
    // nothing reaches the queue.
    let r = f.exec_begin(&mut g, ExitReason::Timeouted, &vec![0, 1, 0, 0]);
    assert!(r.is_none());
    assert_eq!(g.bitmap_normal, vec![0, 1, 0, 0]);
    assert_eq!(g.queue.len(), 0);
}

#[test]
fn determinism_check_keeps_only_stable_bits() {
    let f = worker();
    let mut g = shared(4);
    let snapshot = vec![0, 1, 0, 1];
    let proposal = f.exec_begin(&mut g, ExitReason::Normal(0), &snapshot).unwrap();
    assert_eq!(proposal, vec![1, 3]);
    // Bit 3 flaps away in the fourth rerun.
    let reruns = vec![
        vec![0, 1, 0, 1],
        vec![0, 1, 0, 1],
        vec![0, 1, 0, 1],
        vec![0, 1, 0, 0],
        vec![0, 1, 0, 1],
    ];
    let (bits, path) = f.exec_finish(
        &mut g,
        proposal,
        &reruns,
        tiny_tree(),
        snapshot,
        ExitReason::Normal(0),
        7,
    );
    assert_eq!(bits.unwrap(), vec![1]);
    assert!(path.is_some());
    assert_eq!(g.queue.len(), 1);
    // The queue computed the fresh bits from its own index, over the
    // full snapshot.
    assert_eq!(g.queue.inputs[0].fresh_bits, vec![1, 3]);
}

#[test]
fn fully_flapping_proposal_is_dropped() {
    let f = worker();
    let mut g = shared(2);
    let snapshot = vec![0, 1];
    let proposal = f.exec_begin(&mut g, ExitReason::Normal(0), &snapshot).unwrap();
    let reruns = vec![vec![0, 0]; 5];
    let (bits, path) = f.exec_finish(
        &mut g,
        proposal,
        &reruns,
        tiny_tree(),
        snapshot,
        ExitReason::Normal(0),
        7,
    );
    assert!(bits.is_none());
    assert!(path.is_none());
    assert_eq!(g.queue.len(), 0);
}

#[test]
fn signal_crash_is_recorded_and_dumped() {
    let mut f = worker();
    let mut g = shared(4);
    let bits = Some(vec![1]);
    let path = f.run_on(
        &mut g,
        &bits,
        ExitReason::Signaled(6),
        ExecutionReason::Gen,
        &String::from("fuzzer_1"),
    );
    assert_eq!(path.unwrap(), "wd/outputs/signaled/6_000000000.txt");
    assert_eq!(g.total_found_sig, 1);
    assert_eq!(g.total_found_asan, 0);
    assert_ne!(g.last_found_sig, "Not found yet.");
}

#[test]
fn sanitizer_crash_is_recorded_and_dumped() {
    let mut f = worker();
    let mut g = shared(4);
    let bits = Some(vec![0]);
    let path = f.run_on(
        &mut g,
        &bits,
        ExitReason::Normal(223),
        ExecutionReason::Havoc,
        &String::from("fuzzer_1"),
    );
    assert_eq!(path.unwrap(), "wd/outputs/signaled/ASAN_000000000_.txtfuzzer_1");
    assert_eq!(g.total_found_asan, 1);
    // The per-strategy counter is for plain exits only.
    assert_eq!(f.bits_found_by_havoc, 0);
}

#[test]
fn plain_discovery_counts_for_its_strategy() {
    let mut f = worker();
    let mut g = shared(4);
    let bits = Some(vec![0]);
    let r = f.run_on(&mut g, &bits, ExitReason::Normal(0), ExecutionReason::Havoc, &String::new());
    assert!(r.is_none());
    assert_eq!(f.bits_found_by_havoc, 1);
    let r2 = f.run_on(&mut g, &bits, ExitReason::Normal(0), ExecutionReason::Gen, &String::new());
    assert!(r2.is_none());
    assert_eq!(f.bits_found_by_gen, 1);
    // Without novelty nothing is counted.
    let r3 = f.run_on(&mut g, &None, ExitReason::Normal(0), ExecutionReason::Havoc, &String::new());
    assert!(r3.is_none());
    assert_eq!(f.bits_found_by_havoc, 1);
}

#[test]
fn timeout_is_always_dumped() {
    let mut f = worker();
    let mut g = shared(4);
    let path = f.run_on(
        &mut g,
        &None,
        ExitReason::Timeouted,
        ExecutionReason::Det,
        &String::new(),
    );
    assert_eq!(path.unwrap(), "wd/outputs/timeout/000000000.txt");
    assert_ne!(g.last_timeout, "No Timeout yet.");
    assert_eq!(g.queue.len(), 0);
}

#[test]
fn stopped_children_are_ignored() {
    let mut f = worker();
    let mut g = shared(4);
    let r = f.run_on(
        &mut g,
        &Some(vec![0]),
        ExitReason::Stopped(19),
        ExecutionReason::Det,
        &String::new(),
    );
    assert!(r.is_none());
    assert_eq!(g.total_found_sig, 0);
    assert_eq!(g.total_found_asan, 0);
}

#[test]
fn execution_counter() {
    let mut f = worker();
    f.count_execution();
    f.count_execution();
    assert_eq!(f.execution_count, 2);
}

#[test]
fn counter_merge_moves_deltas() {
    let mut f = worker();
    let mut g = shared(4);
    f.execution_count = 10;
    f.bits_found_by_havoc = 3;
    f.bits_found_by_min = 1;
    let mut old_exec = 4u64;
    let mut old_eps = 0u32;
    merge_counters(&mut g, &mut f, &mut old_exec, &mut old_eps, 120);
    assert_eq!(g.execution_count, 6);
    assert_eq!(old_exec, 10);
    assert_eq!(g.average_executions_per_sec, 120);
    assert_eq!(old_eps, 120);
    assert_eq!(g.bits_found_by_havoc, 3);
    assert_eq!(g.bits_found_by_min, 1);
    assert_eq!(f.bits_found_by_havoc, 0);
    assert_eq!(f.bits_found_by_min, 0);
    // A second merge with no new work adds nothing.
    merge_counters(&mut g, &mut f, &mut old_exec, &mut old_eps, 100);
    assert_eq!(g.execution_count, 6);
    assert_eq!(g.average_executions_per_sec, 100);
    assert_eq!(g.bits_found_by_havoc, 3);
}

#[test]
fn fresh_state_reports_nothing_found() {
    let g = shared(8);
    assert_eq!(g.last_found_asan, "Not found yet.");
    assert_eq!(g.last_found_sig, "Not found yet.");
    assert_eq!(g.last_timeout, "No Timeout yet.");
    assert_eq!(g.state_saved, "State not saved yet.");
    assert_eq!(g.bitmap_normal, vec![0; 8]);
    assert_eq!(g.bitmap_crash, vec![0; 8]);
    assert_eq!(g.execution_count, 0);
}
