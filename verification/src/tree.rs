//! The derivation data the core carries for each stored input.
//!
//! The grammar engine owns the meaning of a derivation; the core only
//! stores it, hands it back to the engine for mutation, and persists its
//! unparsed bytes.  So a tree is plain data here: the rule choice, the
//! subtree size and the parent of each node.

use vstd::prelude::*;
use crate::ids::{NodeID, RuleID};

verus! {

/// A derivation tree in preorder: per node its rule, the size of its
/// subtree, and its parent.
#[derive(Debug, Clone)]
pub struct Tree {
    pub rules: Vec<RuleID>,
    pub sizes: Vec<usize>,
    pub paren: Vec<NodeID>,
}

/// A recursion site of a derivation: a node that derives the same
/// non-terminal as one of its ancestors, named by both ends.
#[derive(Debug, Clone, Copy, PartialEq, Eq, Structural)]
pub struct RecursionInfo {
    pub ancestor: NodeID,
    pub node: NodeID,
}

} // verus!
