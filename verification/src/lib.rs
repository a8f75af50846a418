//! Session management for image backups to, and restores from, a remote
//! chunk store.
//!
//! The crate holds the decisions of a backup or restore session as plain
//! state machines: every operation is a transition on the session value, and
//! work that only the remote store can do (handshake, chunk transfer, manifest
//! commit) enters a transition as the outcome the store reported. A caller
//! that owns the network side drives the machines and performs what they ask.

pub mod backup;
pub mod backup_laws;
pub mod bridge;
pub mod errors;
pub mod pipeline;
pub mod registry;
pub mod restore;
pub mod setup;
pub mod stream;

use vstd::prelude::*;

verus! {

/// Chunk size used when a caller does not choose one: 4 MiB.
pub const PROXMOX_BACKUP_DEFAULT_CHUNK_SIZE: u64 = 1024 * 1024 * 4;

} // verus!
