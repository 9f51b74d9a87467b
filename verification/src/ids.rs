//! Index newtypes of the grammar: rules, nodes of a derivation, and
//! non-terminals are told apart by type, not by convention.

use vstd::prelude::*;

verus! {

/// Index of a rule of the grammar.
#[derive(PartialEq, Eq, Clone, Copy, Debug, Hash, Structural)]
pub struct RuleID(pub usize);

/// Index of a node of a derivation tree.
#[derive(PartialEq, PartialOrd, Eq, Clone, Copy, Debug, Hash, Structural)]
pub struct NodeID(pub usize);

/// Index of a non-terminal of the grammar.
#[derive(PartialEq, Eq, Clone, Copy, Debug, Hash, Structural)]
pub struct NTermID(pub usize);

impl RuleID {
    /// The plain index.
    pub fn to_i(&self) -> (r: usize)
        ensures
            r == self.0,
    {
        self.0
    }
}

impl From<usize> for RuleID {
    fn from(i: usize) -> (r: Self) {
        RuleID(i)
    }
}

impl vstd::std_specs::convert::FromSpecImpl<usize> for RuleID {
    open spec fn obeys_from_spec() -> bool {
        true
    }

    open spec fn from_spec(v: usize) -> RuleID {
        RuleID(v)
    }
}

impl From<RuleID> for usize {
    fn from(rule_id: RuleID) -> (r: Self) {
        rule_id.0
    }
}

impl vstd::std_specs::convert::FromSpecImpl<RuleID> for usize {
    open spec fn obeys_from_spec() -> bool {
        true
    }

    open spec fn from_spec(v: RuleID) -> usize {
        v.0
    }
}

impl core::ops::Add<usize> for RuleID {
    type Output = RuleID;

    fn add(self, rhs: usize) -> (r: RuleID) {
        RuleID(self.0 + rhs)
    }
}

impl vstd::std_specs::ops::AddSpecImpl<usize> for RuleID {
    open spec fn obeys_add_spec() -> bool {
        true
    }

    open spec fn add_req(self, rhs: usize) -> bool {
        self.0 + rhs <= usize::MAX
    }

    open spec fn add_spec(self, rhs: usize) -> RuleID {
        RuleID((self.0 + rhs) as usize)
    }
}

impl NodeID {
    /// The plain index.
    pub fn to_i(&self) -> (r: usize)
        ensures
            r == self.0,
    {
        self.0
    }

    /// How many steps lie from `start` up to `end`, if `start` is not past it.
    pub fn steps_between(start: &Self, end: &Self) -> (r: Option<usize>)
        ensures
            r == (if start.0 <= end.0 {
                Some((end.0 - start.0) as usize)
            } else {
                None::<usize>
            }),
    {
        let start_i = start.to_i();
        let end_i = end.to_i();
        if start_i > end_i {
            return None;
        }
        Some(end_i - start_i)
    }

    /// The node `count` steps forward, unless the index would overflow.
    pub fn forward_checked(start: Self, count: usize) -> (r: Option<Self>)
        ensures
            r == (if start.0 + count <= usize::MAX {
                Some(NodeID((start.0 + count) as usize))
            } else {
                None::<NodeID>
            }),
    {
        match start.0.checked_add(count) {
            Some(i) => Some(NodeID(i)),
            None => None,
        }
    }

    /// The node `count` steps backward, unless the index would underflow.
    pub fn backward_checked(start: Self, count: usize) -> (r: Option<Self>)
        ensures
            r == (if start.0 >= count {
                Some(NodeID((start.0 - count) as usize))
            } else {
                None::<NodeID>
            }),
    {
        match start.0.checked_sub(count) {
            Some(i) => Some(NodeID(i)),
            None => None,
        }
    }
}

impl From<usize> for NodeID {
    fn from(i: usize) -> (r: Self) {
        NodeID(i)
    }
}

impl vstd::std_specs::convert::FromSpecImpl<usize> for NodeID {
    open spec fn obeys_from_spec() -> bool {
        true
    }

    open spec fn from_spec(v: usize) -> NodeID {
        NodeID(v)
    }
}

impl From<NodeID> for usize {
    fn from(node_id: NodeID) -> (r: Self) {
        node_id.0
    }
}

impl vstd::std_specs::convert::FromSpecImpl<NodeID> for usize {
    open spec fn obeys_from_spec() -> bool {
        true
    }

    open spec fn from_spec(v: NodeID) -> usize {
        v.0
    }
}

impl core::ops::Add<usize> for NodeID {
    type Output = NodeID;

    fn add(self, rhs: usize) -> (r: NodeID) {
        NodeID(self.0 + rhs)
    }
}

impl vstd::std_specs::ops::AddSpecImpl<usize> for NodeID {
    open spec fn obeys_add_spec() -> bool {
        true
    }

    open spec fn add_req(self, rhs: usize) -> bool {
        self.0 + rhs <= usize::MAX
    }

    open spec fn add_spec(self, rhs: usize) -> NodeID {
        NodeID((self.0 + rhs) as usize)
    }
}

impl NTermID {
    /// The plain index.
    pub fn to_i(&self) -> (r: usize)
        ensures
            r == self.0,
    {
        self.0
    }
}

impl From<usize> for NTermID {
    fn from(i: usize) -> (r: Self) {
        NTermID(i)
    }
}

impl vstd::std_specs::convert::FromSpecImpl<usize> for NTermID {
    open spec fn obeys_from_spec() -> bool {
        true
    }

    open spec fn from_spec(v: usize) -> NTermID {
        NTermID(v)
    }
}

impl From<NTermID> for usize {
    fn from(term_id: NTermID) -> (r: Self) {
        term_id.0
    }
}

impl vstd::std_specs::convert::FromSpecImpl<NTermID> for usize {
    open spec fn obeys_from_spec() -> bool {
        true
    }

    open spec fn from_spec(v: NTermID) -> usize {
        v.0
    }
}

impl core::ops::Add<usize> for NTermID {
    type Output = NTermID;

    fn add(self, rhs: usize) -> (r: NTermID) {
        NTermID(self.0 + rhs)
    }
}

impl vstd::std_specs::ops::AddSpecImpl<usize> for NTermID {
    open spec fn obeys_add_spec() -> bool {
        true
    }

    open spec fn add_req(self, rhs: usize) -> bool {
        self.0 + rhs <= usize::MAX
    }

    open spec fn add_spec(self, rhs: usize) -> NTermID {
        NTermID((self.0 + rhs) as usize)
    }
}

} // verus!
