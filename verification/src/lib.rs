//! Core logic of a daemon that keeps an SSH authorized-keys file in step
//! with the public keys published by a configured list of remote identities.
//!
//! The library holds everything that can be stated and proved: how the
//! per-identity key blocks are formatted and joined into one aggregate,
//! how concurrently arriving fetch results are put back into the configured
//! order, the all-or-nothing decision of a cycle, and the scheduler's sleep
//! computation. The surrounding process (network retrieval, file writes,
//! timers) feeds these functions plain values and carries out their results.

pub mod aggregate;
pub mod collect;
pub mod config;
pub mod cycle;
pub mod errors;
pub mod schedule;
pub mod url;
