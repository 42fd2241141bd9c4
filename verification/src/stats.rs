//! What the parts of the miner report to the dashboard.

use vstd::prelude::*;

verus! {

/// Something that happened in the miner. `R` is the number type of the hash rate.
#[derive(Debug, Clone)]
pub enum StatEvent<R> {
    /// The hash rate over the last interval, in hashes per second.
    HashRate(R),
    /// A mining thread, and how many hashes it computed since its last report.
    ThreadHash(usize, u64),
    /// The pool took a share.
    ShareAccepted,
    /// The pool refused a share.
    ShareRejected,
    /// The node took a block.
    BlockAccepted,
    /// The node refused a block.
    BlockRejected,
    /// Work on a new job began.
    NewJob(u64),
    /// A message for the event log.
    Event(String),
}

} // verus!
