//! The recognised configuration of a fuzzing campaign.

use vstd::prelude::*;

verus! {

/// Everything a campaign is configured with: worker count and stack
/// size, generation and mutation budgets, the coverage map size, the
/// per-run timeout, and where the target, the grammar and the working
/// directory live.
#[derive(Debug, Clone)]
pub struct Config {
    pub number_of_threads: u8,
    pub thread_size: usize,
    pub number_of_generate_inputs: u16,
    pub number_of_deterministic_mutations: usize,
    pub max_tree_size: usize,
    pub bitmap_size: usize,
    pub timeout_in_millis: u64,
    pub path_to_bin_target: String,
    pub path_to_grammar: String,
    pub path_to_workdir: String,
    pub arguments: Vec<String>,
    pub hide_output: bool,
    pub extension: String,
}

} // verus!
