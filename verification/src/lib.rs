//! Core of a grammar-based, coverage-guided fuzzer.
//!
//! The library holds the verified coordination logic: exit-status
//! classification, coverage-bitmap accounting, the input queue with its
//! bit-to-inputs index, per-worker deduplication, the scheduling state
//! machine, and the file-name layout of the output directory.  Process
//! management (fork server, pipes, shared memory) and the grammar engine
//! live outside and talk to this core through plain values.

pub mod config;
pub mod decimal;
pub mod error;
pub mod exitreason;
pub mod forkserver;
pub mod fuzzer;
pub mod ids;
pub mod paths;
pub mod queue;
pub mod regex_mutator;
pub mod scheduler;
pub mod shared_state;
pub mod tree;
