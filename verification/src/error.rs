//! The error taxonomy of the orchestration core.

use vstd::prelude::*;

verus! {

/// What can go wrong inside the orchestration core.
///
/// - `PoolClosed`: the node pool will never yield another node (fatal to a
///   serving loop).
/// - `SpawnFailure`: a job process could not be started.
/// - `ProcessFailure`: a job process exited unsuccessfully.
/// - `Framing`: malformed or truncated wire data; local to one connection.
/// - `NotFound`: an unknown job identifier was given to the registry.
/// - `AlreadyStarted`: an attempt to reconfigure a computation that has begun.
/// - `NotStarted`: an attempt to wait on a computation that never started.
#[derive(Debug, Clone, Copy, PartialEq, Eq, Structural)]
pub enum Error {
    PoolClosed,
    SpawnFailure,
    ProcessFailure,
    Framing,
    NotFound,
    AlreadyStarted,
    NotStarted,
}

} // verus!
