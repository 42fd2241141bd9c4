//! What this crate takes on trust from the crates that it calls.
//!
//! Everything else in the crate is proved from the contracts in this file and from those that
//! vstd gives to the standard library.

use vstd::arithmetic::power::pow;
use vstd::prelude::*;

use crate::bytes::be_value;
use crate::chain::{Job, JobModel, JobTransaction, TransactionModel};
use crate::text::{base36, base36_number, digit_char};

verus! {

// ---------------------------------------------------------------------------------------------
// Types that are carried through without being looked into.
// ---------------------------------------------------------------------------------------------

/// `Transaction` of snap_coin.
#[verifier::external_type_specification]
#[verifier::external_body]
pub struct ExTransaction(snap_coin::core::transaction::Transaction);

/// `Block` of snap_coin.
#[verifier::external_type_specification]
#[verifier::external_body]
pub struct ExBlock(snap_coin::core::block::Block);

/// The Bloom filter of snap_coin over the addresses of a block.
#[verifier::external_type_specification]
#[verifier::external_body]
pub struct ExAddressInclusionFilter(
    snap_coin::crypto::address_inclusion_filter::AddressInclusionFilter,
);

/// What snap_coin reports where it cannot build such a filter.
#[verifier::external_type_specification]
#[verifier::external_body]
pub struct ExAddressInclusionFilterError(
    snap_coin::crypto::address_inclusion_filter::AddressInclusionFilterError,
);

/// What bincode reports where it cannot encode a value.
#[verifier::external_type_specification]
#[verifier::external_body]
pub struct ExEncodeError(bincode::error::EncodeError);

// ---------------------------------------------------------------------------------------------
// Names for what those types hold and for what the calls return.
// ---------------------------------------------------------------------------------------------

/// What a snap_coin transaction holds, field by field.
pub uninterp spec fn transaction_contents(
    transaction: snap_coin::core::transaction::Transaction,
) -> TransactionModel;

/// What a snap_coin block holds, field by field.
pub uninterp spec fn block_contents(block: snap_coin::core::block::Block) -> JobModel;

/// What `AddressInclusionFilter::create_filter` returns for these transactions.
pub uninterp spec fn address_filter(transactions: Seq<TransactionModel>) -> Result<
    snap_coin::crypto::address_inclusion_filter::AddressInclusionFilter,
    snap_coin::crypto::address_inclusion_filter::AddressInclusionFilterError,
>;

/// The root hash of the tree that `MerkleTree::build` builds over these transaction ids.
pub uninterp spec fn merkle_root(ids: Seq<[u8; 32]>) -> [u8; 32];

/// What `Block::get_hashing_buf` returns for a block that holds these values.
pub uninterp spec fn hashing_bytes(block: JobModel) -> Result<
    Seq<u8>,
    bincode::error::EncodeError,
>;

/// The RandomX hash of `data`, under the seed that snap_coin fixes, as the backend that is linked
/// computes it. Two calls in one build never differ. Builds for different processors may: the
/// backend sets the rounding mode of floating point on aarch64, and leaves it alone on x86_64.
pub uninterp spec fn randomx(data: Seq<u8>) -> [u8; 32];

// ---------------------------------------------------------------------------------------------
// Blocks and transactions.
// ---------------------------------------------------------------------------------------------

/// Writes a transaction as the struct of snap_coin, each field unchanged. The ids, signatures and
/// keys go through `Hash::new_from_buf`, `Signature::new_from_buf` and `Public::new_from_buf`,
/// which wrap the bytes that they are given.
#[verifier::external_body]
pub(crate) fn wrap_transaction(tx: &JobTransaction) -> (r:
    snap_coin::core::transaction::Transaction)
    ensures
        transaction_contents(r) == tx@,
{
    let inputs = tx.inputs.iter().map(|i| snap_coin::core::transaction::TransactionInput {
        transaction_id: snap_coin::crypto::Hash::new_from_buf(i.transaction_id),
        output_index: i.output_index,
        signature: i.signature.map(|s| snap_coin::crypto::Signature::new_from_buf(&s)),
        output_owner: snap_coin::crypto::keys::Public::new_from_buf(&i.output_owner),
    }).collect();
    let outputs = tx.outputs.iter().map(|o| snap_coin::core::transaction::TransactionOutput {
        amount: o.amount,
        receiver: snap_coin::crypto::keys::Public::new_from_buf(&o.receiver),
    }).collect();
    let transaction_id = tx.transaction_id.map(snap_coin::crypto::Hash::new_from_buf);
    snap_coin::core::transaction::Transaction { inputs, outputs, transaction_id, nonce: tx.nonce, timestamp: tx.timestamp }
}

/// Writes a block as the struct of snap_coin, each field unchanged, around transactions that are
/// in that form already.
#[verifier::external_body]
pub(crate) fn wrap_block(
    job: &Job,
    transactions: Vec<snap_coin::core::transaction::Transaction>,
) -> (r: snap_coin::core::block::Block)
    ensures
        block_contents(r) == (JobModel {
            transactions: transactions@.map_values(
                |t: snap_coin::core::transaction::Transaction| transaction_contents(t),
            ),
            ..job@
        }),
{
    let meta = snap_coin::core::block::BlockMetadata {
        block_pow_difficulty: job.meta.block_pow_difficulty,
        tx_pow_difficulty: job.meta.tx_pow_difficulty,
        previous_block: snap_coin::crypto::Hash::new_from_buf(job.meta.previous_block),
        hash: job.meta.hash.map(snap_coin::crypto::Hash::new_from_buf),
        merkle_tree_root: job.meta.merkle_tree_root,
        address_inclusion_filter: job.meta.address_inclusion_filter.clone(),
    };
    snap_coin::core::block::Block { transactions, timestamp: job.timestamp, nonce: job.nonce, meta }
}

/// The derived `clone` of `AddressInclusionFilter`: an equal filter.
pub assume_specification[ <snap_coin::crypto::address_inclusion_filter::AddressInclusionFilter as Clone>::clone ](
    filter: &snap_coin::crypto::address_inclusion_filter::AddressInclusionFilter,
) -> (r: snap_coin::crypto::address_inclusion_filter::AddressInclusionFilter)
    ensures
        r == *filter,
;

/// `AddressInclusionFilter::create_filter`: the filter over the addresses of these transactions,
/// which it always builds, though its type allows for an error. It is a function of the
/// transactions alone: every node builds it again from the block and refuses the block where the
/// two differ. The number of its bits comes from logarithms in floating point, rounded up; that
/// every machine rounds to the same number is what the network rests on, and is claimed here too.
#[verifier::external_body]
pub(crate) fn create_filter(
    transactions: &Vec<snap_coin::core::transaction::Transaction>,
) -> (r: Result<
    snap_coin::crypto::address_inclusion_filter::AddressInclusionFilter,
    snap_coin::crypto::address_inclusion_filter::AddressInclusionFilterError,
>)
    ensures
        r == address_filter(
            transactions@.map_values(
                |t: snap_coin::core::transaction::Transaction| transaction_contents(t),
            ),
        ),
        r is Ok,
{
    snap_coin::crypto::address_inclusion_filter::AddressInclusionFilter::create_filter(transactions)
}

/// `MerkleTree::build` and the root hash of what it builds. The ids decide it; without any, it is
/// all zeros.
#[verifier::external_body]
pub(crate) fn build_merkle_root(ids: &Vec<[u8; 32]>) -> (r: [u8; 32])
    ensures
        r == merkle_root(ids@),
        ids@.len() == 0 ==> r@ == Seq::new(32, |i: int| 0u8),
{
    let hashes: Vec<snap_coin::crypto::Hash> = ids.iter().map(|id| snap_coin::crypto::Hash::new_from_buf(*id)).collect();
    snap_coin::crypto::merkle_tree::MerkleTree::build(&hashes).root_hash()
}

/// `Block::get_hashing_buf`: the bytes that are hashed to mine the block. They do not depend on
/// the hash that the block carries, which is cleared before encoding. The call always succeeds: it
/// encodes plain fields into a growing buffer, which never refuses a byte.
#[verifier::external_body]
pub(crate) fn hashing_buf(block: &snap_coin::core::block::Block) -> (r: Result<
    Vec<u8>,
    bincode::error::EncodeError,
>)
    ensures
        (match r {
            Ok(buf) => Ok(buf@),
            Err(e) => Err(e),
        }) == hashing_bytes(block_contents(*block).without_hash()),
        r is Ok,
{
    block.get_hashing_buf()
}

/// `Hash::new`: the RandomX hash of `data`, which decides it.
#[verifier::external_body]
pub(crate) fn randomx_hash(data: &Vec<u8>) -> (r: [u8; 32])
    ensures
        r == randomx(data@),
{
    snap_coin::crypto::Hash::new(data).dump_buf()
}

// ---------------------------------------------------------------------------------------------
// Numbers.
// ---------------------------------------------------------------------------------------------

/// `Hash::dump_base36`: the bytes as one big-endian number, in base 36 with lower case letters.
#[verifier::external_body]
pub(crate) fn hash_text(hash: &[u8; 32]) -> (r: String)
    ensures
        r@ == base36(be_value(hash@)),
{
    snap_coin::crypto::Hash::new_from_buf(*hash).dump_base36()
}

/// `Public::new_from_base36`: the key whose bytes, as one big-endian number, `text` writes in
/// base 36. There is none where `text` writes no number or one that 32 bytes cannot hold.
#[verifier::external_body]
pub(crate) fn read_public_key(text: &str) -> (r: Option<[u8; 32]>)
    ensures
        r is Some <==> (base36_number(text@) is Some && base36_number(text@)->0 < pow(256, 32)),
        r matches Some(key) ==> base36_number(text@) == Some(be_value(key@)),
{
    snap_coin::crypto::keys::Public::new_from_base36(text).map(|key| *key.dump_buf())
}

/// The order of num_bigint's `BigUint`, on numbers read by `BigUint::from_bytes_be`.
#[verifier::external_body]
pub(crate) fn number_exceeds(a: &[u8; 32], b: &[u8; 32]) -> (r: bool)
    ensures
        r == (be_value(a@) > be_value(b@)),
{
    num_bigint::BigUint::from_bytes_be(a) > num_bigint::BigUint::from_bytes_be(b)
}

// ---------------------------------------------------------------------------------------------
// Rules of the chain.
// ---------------------------------------------------------------------------------------------

/// How long a transaction may wait for a block, in seconds.
pub const EXPIRATION: u64 = 350;

/// How many transactions a block may hold.
pub const BLOCK_CAPACITY: usize = 500;

/// The constant `economics::EXPIRATION_TIME` of snap_coin: ten times the 35 seconds of a block.
#[verifier::external_body]
pub(crate) fn expiration_time() -> (r: u64)
    ensures
        r == EXPIRATION,
{
    snap_coin::core::economics::EXPIRATION_TIME
}

/// The constant `block::MAX_TRANSACTIONS_PER_BLOCK` of snap_coin.
#[verifier::external_body]
pub(crate) fn max_transactions_per_block() -> (r: usize)
    ensures
        r == BLOCK_CAPACITY,
{
    snap_coin::core::block::MAX_TRANSACTIONS_PER_BLOCK
}

/// `slice_vec`: the part of a slice from `start` to `end`, cut off at its length, and nothing
/// where `start` lies past it. A start that lies within the slice but past `end` would panic.
pub assume_specification<T>[ snap_coin::core::utils::slice_vec::<T> ](
    v: &[T],
    start: usize,
    end: usize,
) -> (r: &[T])
    requires
        start >= v@.len() || start <= end,
    ensures
        r@ == (if start >= v@.len() {
            Seq::<T>::empty()
        } else {
            v@.subrange(start as int, if end <= v@.len() { end as int } else { v@.len() as int })
        }),
;

/// What a block at `height` pays, in the smallest unit: 100 coins, halved every million blocks,
/// but never nothing.
pub open spec fn reward_at(height: int) -> int {
    let halved = 10_000_000_000int / pow(2, (height / 1_000_000) as nat);
    if halved >= 1 {
        halved
    } else {
        1
    }
}

/// `get_block_reward`. Its shift would overflow after the sixty-fourth halving.
pub assume_specification[ snap_coin::core::economics::get_block_reward ](height: usize) -> (r: u64)
    requires
        height < 64_000_000,
    ensures
        r == reward_at(height as int),
;

/// `calculate_dev_fee`: two percent, rounded down. It is computed in floating point, where the
/// product is exact enough to round down to the right integer as long as the reward stays below
/// 2 to the power 50. Beyond that, only that the fee is no more than the reward is claimed.
pub assume_specification[ snap_coin::core::economics::calculate_dev_fee ](
    block_reward: u64,
) -> (r: u64)
    ensures
        r <= block_reward,
        block_reward < 0x4_0000_0000_0000 ==> r == block_reward / 50,
;

// ---------------------------------------------------------------------------------------------
// Time and chance.
// ---------------------------------------------------------------------------------------------

/// The last second that chrono's calendar holds, at the end of the year 262142, counted from the
/// epoch.
pub const LATEST_SECOND: u64 = 8_210_266_876_799;

/// The last millisecond of [`LATEST_SECOND`].
pub const LATEST_MILLI: u64 = 8_210_266_876_799_999;

/// What the clocks and the random numbers have said to someone so far. Only the functions below add
/// to it, so whoever holds one can be held to what they were told.
pub struct Heard {
    seconds: Ghost<Seq<u64>>,
    millis: Ghost<Seq<u64>>,
    labels: Ghost<Seq<Seq<char>>>,
    draws: Ghost<Seq<u64>>,
}

impl Heard {
    /// The seconds that were read, in their order.
    pub closed spec fn seconds(self) -> Seq<u64> {
        self.seconds@
    }

    /// The milliseconds that were read, in their order.
    pub closed spec fn millis(self) -> Seq<u64> {
        self.millis@
    }

    /// The times of day that were read, in their order.
    pub closed spec fn labels(self) -> Seq<Seq<char>> {
        self.labels@
    }

    /// The numbers that were drawn, in their order.
    pub closed spec fn draws(self) -> Seq<u64> {
        self.draws@
    }

    /// Nothing was heard yet.
    pub fn nothing() -> (r: Heard)
        ensures
            r.seconds() == Seq::<u64>::empty(),
            r.millis() == Seq::<u64>::empty(),
            r.labels() == Seq::<Seq<char>>::empty(),
            r.draws() == Seq::<u64>::empty(),
    {
        Heard {
            seconds: Ghost(Seq::empty()),
            millis: Ghost(Seq::empty()),
            labels: Ghost(Seq::empty()),
            draws: Ghost(Seq::empty()),
        }
    }
}

/// `Utc::now` of chrono, in seconds since the epoch: a moment of chrono's calendar, and none
/// before the epoch. Which one is not claimed, only that it is what was heard.
#[verifier::external_body]
pub(crate) fn clock_seconds(heard: &mut Heard) -> (r: u64)
    ensures
        r <= LATEST_SECOND,
        final(heard).seconds() == old(heard).seconds().push(r),
        final(heard).millis() == old(heard).millis(),
        final(heard).labels() == old(heard).labels(),
        final(heard).draws() == old(heard).draws(),
{
    chrono::Utc::now().timestamp() as u64
}

/// `Utc::now` of chrono, in milliseconds since the epoch: a moment of chrono's calendar, and none
/// before the epoch. Which one is not claimed, only that it is what was heard.
#[verifier::external_body]
pub(crate) fn clock_millis(heard: &mut Heard) -> (r: u64)
    ensures
        r <= LATEST_MILLI,
        final(heard).seconds() == old(heard).seconds(),
        final(heard).millis() == old(heard).millis().push(r),
        final(heard).labels() == old(heard).labels(),
        final(heard).draws() == old(heard).draws(),
{
    chrono::Utc::now().timestamp_millis() as u64
}

/// A number below 100 in two digits.
pub open spec fn two_digits(n: nat) -> Seq<char> {
    seq![digit_char(n / 10), digit_char(n % 10)]
}

/// A time of day as hours, minutes and seconds.
pub open spec fn time_text(hours: nat, minutes: nat, seconds: nat) -> Seq<char> {
    two_digits(hours) + seq![':'] + two_digits(minutes) + seq![':'] + two_digits(seconds)
}

/// Whether `text` is some time of day. The last minute of a day may have a leap second.
pub open spec fn is_time_of_day(text: Seq<char>) -> bool {
    exists|hours: nat, minutes: nat, seconds: nat|
        {
            &&& hours < 24
            &&& minutes < 60
            &&& seconds <= 60
            &&& text == #[trigger] time_text(hours, minutes, seconds)
        }
}

/// `Local::now` of chrono, as hours, minutes and seconds of two digits each. Which time of day it
/// is, is not claimed, only that it is what was heard.
#[verifier::external_body]
pub(crate) fn clock_label(heard: &mut Heard) -> (r: String)
    ensures
        is_time_of_day(r@),
        final(heard).seconds() == old(heard).seconds(),
        final(heard).millis() == old(heard).millis(),
        final(heard).labels() == old(heard).labels().push(r@),
        final(heard).draws() == old(heard).draws(),
{
    chrono::Local::now().format("%H:%M:%S").to_string()
}

/// `random` of rand. Nothing is claimed of what it returns, only that it is what was heard.
#[verifier::external_body]
pub(crate) fn random_nonce(heard: &mut Heard) -> (r: u64)
    ensures
        final(heard).seconds() == old(heard).seconds(),
        final(heard).millis() == old(heard).millis(),
        final(heard).labels() == old(heard).labels(),
        final(heard).draws() == old(heard).draws().push(r),
{
    rand::random()
}

// ---------------------------------------------------------------------------------------------
// Text.
// ---------------------------------------------------------------------------------------------

/// Whether `part` stands in `text` at position `at`.
pub open spec fn occurs_at(text: Seq<char>, part: Seq<char>, at: int) -> bool {
    0 <= at && at + part.len() <= text.len() && text.subrange(at, at + part.len()) == part
}

/// Whether `part` stands somewhere in `text`.
pub open spec fn occurs(text: Seq<char>, part: Seq<char>) -> bool {
    exists|at: int| occurs_at(text, part, at)
}

/// `str::contains` of the standard library, with a string to look for.
#[verifier::external_body]
pub(crate) fn text_contains(text: &str, part: &str) -> (r: bool)
    ensures
        r == occurs(text@, part@),
{
    text.contains(part)
}

} // verus!
