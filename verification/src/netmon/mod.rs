//! Detection of medium changes under the node's peers.
//!
//! The node samples, for each peer, the local address the host would reach it
//! from. [`fingerprint`] holds and compares such samples, [`detector`] decides
//! when a difference is a change worth reporting, [`wake`] decides when to
//! look again, and [`summary`] puts a change into words.

pub mod detector;
pub mod fingerprint;
pub mod laws;
pub mod script;
pub mod summary;
pub mod summary_laws;
pub mod wake;

use vstd::prelude::*;

verus! {

/// Settings of the detector.
#[derive(Clone, Copy, Debug, PartialEq, Eq, Structural)]
pub struct NetmonConfig {
    /// Whether the detector runs.
    pub enabled: bool,
    /// Seconds between two looks at the host.
    pub poll_interval_secs: u64,
    /// How long a difference must stand still before it is reported, in
    /// milliseconds.
    pub debounce_ms: u64,
}

/// The least time between two reports, in milliseconds.
pub const MIN_CHANGE_INTERVAL_MS: u64 = 5000;

} // verus!
