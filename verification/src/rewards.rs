//! What a mined block earns, and for whom.

use vstd::arithmetic::div_mod::lemma_div_denominator;
use vstd::arithmetic::power::{lemma_pow_positive, pow};
use vstd::prelude::*;

use crate::bytes::{be_value, lemma_be_value_bound};
use crate::outside::{reward_at, read_public_key};
use crate::text::{base36, base36_number, law_base36_reads_back};

verus! {

/// What is kept back from the reward of a block for the developers: two percent, rounded down.
pub open spec fn dev_fee(reward: int) -> int {
    reward / 50
}

/// What the miner of the last block earns on a chain of height `height`, in the smallest unit.
pub open spec fn miner_reward_at(height: int) -> int {
    let last = if height >= 1 {
        height - 1
    } else {
        0
    };
    reward_at(last) - dev_fee(reward_at(last))
}

/// No block pays more than the first.
proof fn lemma_reward_bound(height: int)
    requires
        height >= 0,
    ensures
        1 <= reward_at(height) <= 10_000_000_000,
{
    let p = pow(2, (height / 1_000_000) as nat);
    lemma_pow_positive(2, (height / 1_000_000) as nat);
    assert(10_000_000_000int / p <= 10_000_000_000) by (nonlinear_arith)
        requires
            p > 0,
    ;
}

/// What the miner of the last block earns on a chain of height `height`, in the smallest unit.
pub fn miner_reward(height: usize) -> (r: u64)
    requires
        height <= 64_000_000,
    ensures
        r == miner_reward_at(height as int),
{
    let last: usize = height.saturating_sub(1);
    let reward: u64 = snap_coin::core::economics::get_block_reward(last);
    proof {
        lemma_reward_bound(last as int);
    }
    reward - snap_coin::core::economics::calculate_dev_fee(reward)
}

/// The miner and the developers share the whole reward, and both get some of it unless the reward
/// is too small to be divided.
pub proof fn law_reward_is_shared_out(height: int)
    requires
        height >= 1,
    ensures
        miner_reward_at(height) + dev_fee(reward_at(height - 1)) == reward_at(height - 1),
        miner_reward_at(height) > 0,
        reward_at(height - 1) >= 50 ==> dev_fee(reward_at(height - 1)) > 0,
{
    lemma_reward_bound(height - 1);
}

/// A million blocks later a block pays half, but never nothing.
pub proof fn law_reward_halves(height: int)
    requires
        height >= 0,
    ensures
        reward_at(height + 1_000_000) == (if reward_at(height) / 2 >= 1 {
            reward_at(height) / 2
        } else {
            1
        }),
{
    let k = (height / 1_000_000) as nat;
    assert((height + 1_000_000) / 1_000_000 == k + 1);
    reveal(pow);
    let p = pow(2, k);
    lemma_pow_positive(2, k);
    assert(pow(2, k + 1) == 2 * p);
    lemma_div_denominator(10_000_000_000, p, 2);
    assert(p * 2 == 2 * p);
    assert(10_000_000_000int / p >= 0) by (nonlinear_arith)
        requires
            p > 0,
    ;
}

/// The public key of the miner, from the text in the configuration. There is none where the text
/// writes no number in base 36 or one that 32 bytes cannot hold.
pub fn miner_key(text: &str) -> (r: Option<[u8; 32]>)
    ensures
        r is Some <==> (base36_number(text@) is Some && base36_number(text@)->0 < pow(256, 32)),
        r matches Some(key) ==> base36_number(text@) == Some(be_value(key@)),
{
    read_public_key(text)
}

/// The text of a key is accepted as a key, and stands for the number that the key's bytes write.
pub proof fn law_key_text_is_accepted(key: [u8; 32])
    ensures
        base36_number(base36(be_value(key@))) == Some(be_value(key@)),
        be_value(key@) < pow(256, 32),
{
    law_base36_reads_back(be_value(key@));
    lemma_be_value_bound(key@);
}

/// What a miner earns, in numbers: of 100 coins, halved once for every full million of blocks below
/// the last one but never less than the smallest unit, all but the fiftieth part.
pub proof fn law_reward_in_numbers(height: int)
    requires
        height >= 1,
    ensures
        ({
            let halved = 10_000_000_000int / pow(2, ((height - 1) / 1_000_000) as nat);
            let reward = if halved < 1 {
                1
            } else {
                halved
            };
            miner_reward_at(height) == reward - reward / 50
        }),
        miner_reward_at(0) == miner_reward_at(1),
        1 <= height <= 1_000_000 ==> miner_reward_at(height) == 9_800_000_000,
{
    if height <= 1_000_000 {
        assert((height - 1) / 1_000_000 == 0);
        reveal(pow);
        assert(pow(2, 0) == 1);
        assert(10_000_000_000int / 1 == 10_000_000_000);
    }
}

} // verus!
