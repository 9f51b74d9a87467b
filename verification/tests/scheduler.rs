use nautilus::exitreason::ExitReason;
use nautilus::ids::{NodeID, RuleID};
use nautilus::queue::{InputState, QueueItem};
use nautilus::scheduler::{minimize, process_input, MINIMIZATION_WINDOW};
use nautilus::tree::{RecursionInfo, Tree};

fn item() -> QueueItem {
    QueueItem::new(
        0,
        Tree { rules: vec![RuleID(0)], sizes: vec![1], paren: vec![NodeID(0)] },
        vec![0],
        vec![1],
        ExitReason::Normal(0),
        1,
    )
}

#[test]
fn init_advances_by_windows_until_minimal() {
    let mut inp = item();
    // An unfinished window moves to the next one; no random strategies
    // in the minimisation phase.
    assert!(!process_input(&mut inp, false, 2));
    assert!(matches!(inp.state, InputState::Init(k) if k == MINIMIZATION_WINDOW));
    assert!(!process_input(&mut inp, false, 2));
    assert!(matches!(inp.state, InputState::Init(k) if k == 2 * MINIMIZATION_WINDOW));
    // A minimal item enters the first deterministic cycle.
    assert!(!process_input(&mut inp, true, 2));
    assert!(matches!(inp.state, InputState::Det(0, 0)));
}

#[test]
fn det_walks_indices_then_cycles() {
    let mut inp = item();
    inp.state = InputState::Det(0, 5);
    // An unexhausted window advances the index; the random strategies
    // run every deterministic tick.
    assert!(process_input(&mut inp, false, 2));
    assert!(matches!(inp.state, InputState::Det(0, 6)));
    // An exhausted window below the cycle budget starts the next cycle.
    assert!(process_input(&mut inp, true, 2));
    assert!(matches!(inp.state, InputState::Det(1, 0)));
}

#[test]
fn final_det_cycle_goes_random() {
    // The sixth end-to-end scenario: the last deterministic cycle
    // reports done, and the item is scheduled as random from then on.
    let mut inp = item();
    inp.state = InputState::Det(2, 0);
    assert!(process_input(&mut inp, true, 2));
    assert!(matches!(inp.state, InputState::Random));
    // Random is absorbing, and the random strategies still run.
    assert!(process_input(&mut inp, true, 2));
    assert!(matches!(inp.state, InputState::Random));
    assert!(process_input(&mut inp, false, 2));
    assert!(matches!(inp.state, InputState::Random));
}

#[test]
fn minimize_finishes_only_when_both_minimisers_do() {
    let mut inp = item();
    let wd = String::from("wd");
    let ext = String::from(".txt");
    assert!(minimize(&mut inp, true, false, None, &wd, &ext).is_none());
    assert!(minimize(&mut inp, false, true, None, &wd, &ext).is_none());
    assert!(minimize(&mut inp, false, false, None, &wd, &ext).is_none());
    assert!(inp.recursions.is_none());
    let rec = vec![RecursionInfo { ancestor: NodeID(0), node: NodeID(1) }];
    let path = minimize(&mut inp, true, true, Some(rec), &wd, &ext);
    assert_eq!(path.unwrap(), "wd/outputs/queue/id:000000000,er:Normal(0).min.txt");
    assert_eq!(inp.recursions.as_ref().unwrap().len(), 1);
}
