//! The verified core of a Snap Coin miner: everything that the miner decides and computes, up to
//! the point where the network, the terminal, the threads or floating point take over.
//!
//! - [`chain`]: blocks and transactions, and one attempt at mining a block
//! - [`mining`]: a mining thread, from waiting for a job to submitting a block
//! - [`console`]: the same for the console front end
//! - [`iteration`]: in which order a mining thread does all that, for either front end
//! - [`jobs`]: which chain events make a job, and what goes into it
//! - [`tui`], [`screen`]: what the dashboard remembers and shows
//! - [`options`], [`rewards`], [`pool`], [`stats`]: the command line, rewards and keys, what a
//!   pool says, and what the parts of the miner report
//! - [`bytes`], [`text`], [`units`]: byte strings as numbers, numbers as text, difficulties
//! - [`rounding`]: how double precision arithmetic rounds, in integers
//! - [`promises`]: what blocks, threads and rounds come to, in plain terms
//! - [`outside`]: what is taken on trust from other crates

pub mod bytes;
pub mod chain;
pub mod console;
pub mod iteration;
pub mod jobs;
pub mod mining;
pub mod options;
pub mod outside;
pub mod pool;
pub mod promises;
pub mod rewards;
pub mod rounding;
pub mod screen;
pub mod stats;
pub mod text;
pub mod tui;
pub mod units;
