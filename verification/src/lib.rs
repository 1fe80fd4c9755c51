//! Supervisory core of a desktop application that runs one local server
//! process per workspace: identifier validation, the registry of running
//! servers with its start and stop decisions, the startup handshake, bounded
//! termination, and the framing of the persisted state file and of the
//! per-thread transcript logs.
//!
//! Everything here is pure: it decides and formats, and leaves process
//! handling and file access to the caller, which reports back what happened.

pub mod text;
pub mod error;
pub mod validate;
pub mod paths;
pub mod sidecar;
pub mod handshake;
pub mod registry;
pub mod shutdown;
pub mod transcript;
pub mod state;
pub mod launch;
pub mod probe;
