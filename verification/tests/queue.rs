use nautilus::exitreason::ExitReason;
use nautilus::ids::{NodeID, RuleID};
use nautilus::queue::{InputState, Queue, QueueItem};
use nautilus::tree::Tree;

fn tiny_tree() -> Tree {
    Tree { rules: vec![RuleID(0)], sizes: vec![1], paren: vec![NodeID(0)] }
}

fn fresh_queue() -> Queue {
    Queue::new(String::from("wd"), String::from(".txt"))
}

#[test]
fn add_stores_and_registers() {
    let mut q = fresh_queue();
    let path = q.add(tiny_tree(), vec![0, 1, 0, 2], ExitReason::Normal(0), 5);
    assert_eq!(path.unwrap(), "wd/outputs/queue/id:000000000,er:Normal(0).txt");
    assert_eq!(q.len(), 1);
    assert_eq!(q.current_id, 1);
    // Every hit bit is registered under the new id.
    assert_eq!(q.bit_to_inputs[1], vec![0]);
    assert_eq!(q.bit_to_inputs[3], vec![0]);
    assert!(q.bit_to_inputs[0].is_empty());
    assert!(q.bit_to_inputs[2].is_empty());
    // The stored item claims exactly the uncovered hit bits as fresh.
    assert_eq!(q.inputs[0].fresh_bits, vec![1, 3]);
    assert_eq!(q.inputs[0].id, 0);
    assert!(matches!(q.inputs[0].state, InputState::Init(0)));
    assert!(q.inputs[0].recursions.is_none());
    assert_eq!(q.inputs[0].execution_time, 5);
}

#[test]
fn add_rejects_covered_snapshots() {
    let mut q = fresh_queue();
    assert!(q.add(tiny_tree(), vec![0, 1], ExitReason::Normal(0), 1).is_some());
    // The same coverage offers nothing new.
    assert!(q.add(tiny_tree(), vec![0, 9], ExitReason::Normal(0), 1).is_none());
    assert_eq!(q.len(), 1);
    assert_eq!(q.current_id, 1);
    // A snapshot with one uncovered hit bit is taken, and only the new
    // bit is fresh.
    let p = q.add(tiny_tree(), vec![3, 1], ExitReason::Normal(0), 1);
    assert!(p.is_some());
    assert_eq!(q.inputs[1].fresh_bits, vec![0]);
    assert_eq!(q.bit_to_inputs[1], vec![0, 1]);
}

#[test]
fn add_all_zero_snapshot_is_rejected() {
    let mut q = fresh_queue();
    assert!(q.add(tiny_tree(), vec![0, 0, 0], ExitReason::Normal(0), 1).is_none());
    assert_eq!(q.len(), 0);
}

#[test]
fn pop_unregisters_the_item() {
    let mut q = fresh_queue();
    q.add(tiny_tree(), vec![0, 1], ExitReason::Normal(0), 1);
    q.add(tiny_tree(), vec![1, 1], ExitReason::Normal(0), 1);
    // The queue is a stack: the most recent discovery comes first.
    let item = q.pop().unwrap();
    assert_eq!(item.id, 1);
    assert_eq!(q.len(), 1);
    // Its id is gone from every index entry; the other item's stays.
    assert_eq!(q.bit_to_inputs[0], vec![]);
    assert_eq!(q.bit_to_inputs[1], vec![0]);
    assert!(q.pop().is_some());
    assert!(q.pop().is_none());
}

#[test]
fn finished_drops_an_obsolete_item() {
    let mut q = fresh_queue();
    q.add(tiny_tree(), vec![0, 1], ExitReason::Normal(0), 1);
    q.add(tiny_tree(), vec![1, 1], ExitReason::Normal(0), 1);
    let item = q.pop().unwrap();
    // Item 0 still covers bit 1, and bit 0 of the popped item... item 1
    // covered bits 0 and 1; after popping it, bit 0 is uncovered, so the
    // item is still wanted.
    let r = q.finished(item);
    assert!(r.is_none());
    assert_eq!(q.processed.len(), 1);
    assert_eq!(q.bit_to_inputs[0], vec![1]);
    assert_eq!(q.bit_to_inputs[1], vec![0, 1]);

    // Popping item 1 again and finishing it while everything it covers
    // is covered by nobody else keeps it; but an item whose bits are all
    // covered elsewhere is dropped, naming its file.
    let mut q2 = fresh_queue();
    q2.add(tiny_tree(), vec![0, 1], ExitReason::Normal(0), 1);
    q2.add(tiny_tree(), vec![1, 1], ExitReason::Normal(0), 1);
    let first = q2.pop().unwrap();  // id 1
    q2.finished(first);
    let second = q2.pop().unwrap();  // id 0, covering only bit 1
    let r2 = q2.finished(second);
    // Bit 1 is still covered by item 1, so item 0 is obsolete.
    assert_eq!(r2.unwrap(), "wd/outputs/queue/id:000000000,er:Normal(0).txt");
    assert_eq!(q2.processed.len(), 1);
}

#[test]
fn finished_recomputes_fresh_bits() {
    let mut q = fresh_queue();
    // The first item is first to cover bits 0 and 1.
    q.add(tiny_tree(), vec![1, 1], ExitReason::Normal(0), 1);
    let item = q.pop().unwrap();
    assert_eq!(item.fresh_bits, vec![0, 1]);
    // While it is in flight, another item claims bit 1.
    q.add(tiny_tree(), vec![0, 1], ExitReason::Normal(0), 1);
    // On return the kept item's fresh set is recomputed against the
    // current index: bit 1 is covered now, so only bit 0 remains.
    let r = q.finished(item);
    assert!(r.is_none());
    assert_eq!(q.processed[0].fresh_bits, vec![0]);
    assert_eq!(q.processed[0].all_bits, vec![1, 1]);
    assert_eq!(q.bit_to_inputs[0], vec![0]);
    assert_eq!(q.bit_to_inputs[1], vec![1, 0]);
}

#[test]
fn new_round_requeues_processed_items() {
    let mut q = fresh_queue();
    q.add(tiny_tree(), vec![0, 1], ExitReason::Normal(0), 1);
    let item = q.pop().unwrap();
    q.finished(item);
    assert_eq!(q.len(), 0);
    q.new_round();
    assert_eq!(q.len(), 1);
    assert_eq!(q.processed.len(), 0);
}

#[test]
fn current_id_wraps_without_corrupting_the_index() {
    let mut q = fresh_queue();
    q.current_id = usize::MAX;
    q.add(tiny_tree(), vec![1], ExitReason::Normal(0), 1);
    assert_eq!(q.inputs[0].id, usize::MAX);
    assert_eq!(q.current_id, 0);
    assert_eq!(q.bit_to_inputs[0], vec![usize::MAX]);
    q.add(tiny_tree(), vec![1, 1], ExitReason::Normal(0), 1);
    assert_eq!(q.inputs[1].id, 0);
    assert_eq!(q.bit_to_inputs[0], vec![usize::MAX, 0]);
    assert_eq!(q.bit_to_inputs[1], vec![0]);
}

#[test]
fn queue_item_new_starts_in_init() {
    let item = QueueItem::new(3, tiny_tree(), vec![0], vec![1], ExitReason::Signaled(6), 9);
    assert_eq!(item.id, 3);
    assert_eq!(item.fresh_bits, vec![0]);
    assert_eq!(item.all_bits, vec![1]);
    assert_eq!(item.exitreason, ExitReason::Signaled(6));
    assert!(matches!(item.state, InputState::Init(0)));
    assert!(item.recursions.is_none());
    assert_eq!(item.execution_time, 9);
}
