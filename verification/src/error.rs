//! Error kinds of the fork-server side of the fuzzer.
//!
//! Spawn errors are fatal to a worker's setup; subprocess errors surface
//! mid-run and make the worker restart its fork server.  The causes these
//! variants carried in the operating-system layer (an `errno`, an I/O
//! failure) are kept as plain descriptions.

use vstd::prelude::*;

verus! {

/// A failure while spawning the target under the fork server.
#[derive(Debug, Clone)]
pub enum SpawnError {
    Fork(String),
    Path(String),
    Exec(String),
    FFINull(String),
    DevNull(String),
}

/// A failure while communicating with a running fork server.
#[derive(Debug, Clone)]
pub enum SubprocessError {
    Spawn(SpawnError),
    Unspecific(String),
    Io(String),
    Unix(String),
}

/// An `Err` describing a problem with the target's path.
pub fn path_err<T>(desc: &str) -> (r: Result<T, SpawnError>)
    ensures
        r matches Err(e) && e matches SpawnError::Path(d) && d@ == desc@,
{
    Err(SpawnError::Path(desc.to_owned()))
}

/// An `Err` describing an unspecific subprocess failure.
pub fn descr_err<T>(desc: &str) -> (r: Result<T, SubprocessError>)
    ensures
        r matches Err(e) && e matches SubprocessError::Unspecific(d) && d@ == desc@,
{
    Err(SubprocessError::Unspecific(desc.to_owned()))
}

} // verus!
