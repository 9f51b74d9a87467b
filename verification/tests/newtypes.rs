use nautilus::ids::{NTermID, NodeID, RuleID};

#[test]
fn rule_id() {
    let r1: RuleID = 1337.into();
    let r2 = RuleID::from(1338);
    let i1: usize = r1.into();
    assert_eq!(i1, 1337);
    let i2: usize = 1338;
    assert_eq!(i2, r2.into());
    let r3 = r2 + 3;
    assert_eq!(r3, 1341.into());
}

#[test]
fn node_id() {
    let r1: NodeID = 1337.into();
    let r2 = NodeID::from(1338);
    let i1: usize = r1.into();
    assert_eq!(i1, 1337);
    let i2: usize = 1338;
    assert_eq!(i2, r2.into());
    let r3 = r2 + 3;
    assert_eq!(r3, 1341.into());
}

#[test]
fn nterm_id() {
    let r1: NTermID = 1337.into();
    let r2 = NTermID::from(1338);
    let i1: usize = r1.into();
    assert_eq!(i1, 1337);
    let i2: usize = 1338;
    assert_eq!(i2, r2.into());
    let r3 = r2 + 3;
    assert_eq!(r3, 1341.into());
}

#[test]
fn test_node_id_trait_step_impl() {
    let x = 1337;
    let y = 1360;
    let r1: NodeID = x.into();
    let r2 = NodeID::from(y);
    let mut sum_from_nodes = 0;
    let mut node = r1;
    while node != r2 {
        sum_from_nodes += node.to_i();
        node = NodeID::forward_checked(node, 1).unwrap();
    }
    let mut sum_from_ints = 0;
    for i in x..y {
        sum_from_ints += i;
    }
    assert_eq!(sum_from_ints, sum_from_nodes);
}

#[test]
fn node_id_steps() {
    let a = NodeID::from(10);
    let b = NodeID::from(25);
    assert_eq!(NodeID::steps_between(&a, &b), Some(15));
    assert_eq!(NodeID::steps_between(&b, &a), None);
    assert_eq!(NodeID::forward_checked(a, 5), Some(NodeID::from(15)));
    assert_eq!(NodeID::forward_checked(NodeID::from(usize::MAX), 1), None);
    assert_eq!(NodeID::backward_checked(a, 10), Some(NodeID::from(0)));
    assert_eq!(NodeID::backward_checked(a, 11), None);
}
