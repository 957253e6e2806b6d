//! Monitoring core for public append-only certificate logs.
//!
//! The crate resolves which logs belong to which operator through a
//! time-to-live cached directory, and runs one watcher state machine per
//! log: poll for the log's newest signed checkpoint, detect change, build
//! an authenticated update and retry its submission to a ledger until it
//! is acknowledged, only then advancing local progress state.
//!
//! Network fetches, ledger calls and task spawning live outside this
//! library; the library takes their outcomes as plain values and decides
//! every next step under contract.

pub mod bootstrap;
pub mod cache;
pub mod directory;
pub mod errors;
pub mod types;
pub mod watcher;
