//! What a pool tells the miner.

use vstd::prelude::*;

verus! {

/// What a pool answers when a miner introduces itself.
#[derive(Copy, Clone, Debug)]
pub struct PoolInfo {
    /// A hash below this number is a share.
    pub pool_difficulty: [u8; 32],
}

} // verus!
