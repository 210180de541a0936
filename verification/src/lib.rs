//! Ground-state magnetic-ordering search: the job orchestration core.
//!
//! This library holds the verified core of a small distributed-job execution
//! service: a pool of named remote nodes, immutable job descriptions bound to
//! ephemeral working directories, a registry mapping stable job identifiers to
//! computations, the binary wire protocol between client and server, and the
//! dispatcher that routes requests to workers.  Process supervision, sockets
//! and the file system live outside, in the surrounding application.

pub mod codec;
pub mod dispatch;
pub mod error;
pub mod job;
pub mod magmom;
pub mod pool;
pub mod registry;
pub mod runner;
