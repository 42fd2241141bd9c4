//! Blocks and transactions as plain values.

use vstd::prelude::*;

use bincode::error::EncodeError;
use snap_coin::crypto::address_inclusion_filter::{
    AddressInclusionFilter, AddressInclusionFilterError,
};

use crate::outside::{
    address_filter, block_contents, build_merkle_root, create_filter, expiration_time, hashing_buf,
    hashing_bytes, merkle_root, randomx, randomx_hash, transaction_contents, wrap_block,
    wrap_transaction, EXPIRATION,
};

verus! {

/// An output of an earlier transaction that a transaction spends.
#[derive(Clone, Copy, Debug)]
pub struct TxInput {
    pub transaction_id: [u8; 32],
    pub output_index: usize,
    pub signature: Option<[u8; 64]>,
    pub output_owner: [u8; 32],
}

/// An amount that a transaction pays to a receiver.
#[derive(Clone, Copy, Debug)]
pub struct TxOutput {
    pub amount: u64,
    pub receiver: [u8; 32],
}

/// A transaction of the chain.
#[derive(Debug)]
pub struct JobTransaction {
    pub inputs: Vec<TxInput>,
    pub outputs: Vec<TxOutput>,
    pub transaction_id: Option<[u8; 32]>,
    pub nonce: u64,
    pub timestamp: u64,
}

/// What a block commits to beside its transactions.
#[derive(Debug)]
pub struct JobMetadata {
    pub block_pow_difficulty: [u8; 32],
    pub tx_pow_difficulty: [u8; 32],
    pub previous_block: [u8; 32],
    pub hash: Option<[u8; 32]>,
    pub merkle_tree_root: [u8; 32],
    pub address_inclusion_filter: AddressInclusionFilter,
}

/// A block of the chain, or a candidate for one.
#[derive(Debug)]
pub struct Job {
    pub transactions: Vec<JobTransaction>,
    pub timestamp: u64,
    pub nonce: u64,
    pub meta: JobMetadata,
}

/// The mathematical value of a [`JobTransaction`].
#[verifier::ext_equal]
pub struct TransactionModel {
    pub inputs: Seq<TxInput>,
    pub outputs: Seq<TxOutput>,
    pub transaction_id: Option<[u8; 32]>,
    pub nonce: u64,
    pub timestamp: u64,
}

/// The mathematical value of a [`Job`].
#[verifier::ext_equal]
pub struct JobModel {
    pub transactions: Seq<TransactionModel>,
    pub timestamp: u64,
    pub nonce: u64,
    pub block_pow_difficulty: [u8; 32],
    pub tx_pow_difficulty: [u8; 32],
    pub previous_block: [u8; 32],
    pub hash: Option<[u8; 32]>,
    pub merkle_tree_root: [u8; 32],
    pub address_inclusion_filter: AddressInclusionFilter,
}

impl View for JobTransaction {
    type V = TransactionModel;

    open spec fn view(&self) -> TransactionModel {
        TransactionModel {
            inputs: self.inputs@,
            outputs: self.outputs@,
            transaction_id: self.transaction_id,
            nonce: self.nonce,
            timestamp: self.timestamp,
        }
    }
}

/// The models of a sequence of transactions.
pub open spec fn models(transactions: Seq<JobTransaction>) -> Seq<TransactionModel> {
    transactions.map_values(|t: JobTransaction| t@)
}

impl View for Job {
    type V = JobModel;

    open spec fn view(&self) -> JobModel {
        JobModel {
            transactions: models(self.transactions@),
            timestamp: self.timestamp,
            nonce: self.nonce,
            block_pow_difficulty: self.meta.block_pow_difficulty,
            tx_pow_difficulty: self.meta.tx_pow_difficulty,
            previous_block: self.meta.previous_block,
            hash: self.meta.hash,
            merkle_tree_root: self.meta.merkle_tree_root,
            address_inclusion_filter: self.meta.address_inclusion_filter,
        }
    }
}

/// How much longer than [`EXPIRATION`] a transaction stays in a job, in seconds.
pub const EXPIRATION_MARGIN: u64 = 10;

/// Whether a transaction is too old at `now` to be mined.
pub open spec fn expired(transaction: TransactionModel, now: u64) -> bool {
    transaction.timestamp + EXPIRATION + EXPIRATION_MARGIN < now
}

/// The transactions that are not too old at `now`, in their order.
pub open spec fn live(transactions: Seq<TransactionModel>, now: u64) -> Seq<TransactionModel> {
    transactions.filter(|t: TransactionModel| !expired(t, now))
}

/// The ids of these transactions, in their order.
pub open spec fn ids(transactions: Seq<TransactionModel>) -> Seq<[u8; 32]> {
    transactions.map_values(|t: TransactionModel| t.transaction_id->0)
}

/// Why an attempt at a job came to nothing.
#[derive(Debug)]
pub enum MineError {
    /// The address filter could not be built again.
    Filter(AddressInclusionFilterError),
    /// The block could not be encoded for hashing.
    Encode(EncodeError),
}

impl JobModel {
    /// This block with no hash attached.
    pub open spec fn without_hash(self) -> JobModel {
        JobModel { hash: None, ..self }
    }

    /// This block stamped with `now`, without the transactions that are too old then.
    pub open spec fn pruned(self, now: u64) -> JobModel {
        JobModel { transactions: live(self.transactions, now), timestamp: now, ..self }
    }

    /// Whether some transaction is too old at `now`.
    pub open spec fn loses_transactions(self, now: u64) -> bool {
        live(self.transactions, now).len() < self.transactions.len()
    }

    /// Whether the age of every transaction can be computed without overflow.
    pub open spec fn ages_fit(self) -> bool {
        forall|i: int|
            0 <= i < self.transactions.len() ==> #[trigger] self.transactions[i].timestamp
                + EXPIRATION + EXPIRATION_MARGIN <= u64::MAX
    }

    /// Whether every transaction has an id.
    pub open spec fn has_ids(self) -> bool {
        forall|i: int|
            0 <= i < self.transactions.len() ==> #[trigger] self.transactions[i].transaction_id
                is Some
    }

    /// Whether the block can be brought up to date at `now`: the ages are in range and, where
    /// transactions go, those that stay have ids to build the Merkle tree from.
    pub open spec fn can_refresh(self, now: u64) -> bool {
        &&& self.ages_fit()
        &&& self.loses_transactions(now) ==> self.pruned(now).has_ids()
    }

    /// Whether the block can be brought up to date at any moment.
    pub open spec fn always_refreshes(self) -> bool {
        self.ages_fit() && self.has_ids()
    }

    /// This block with the Merkle root of its transactions.
    pub open spec fn with_root(self) -> JobModel {
        JobModel { merkle_tree_root: merkle_root(ids(self.transactions)), ..self }
    }

    /// What bringing the block up to date at `now` leaves, and the error it ends in, if any. Where
    /// no transaction goes, the commitments stand as they are.
    pub open spec fn refreshed(self, now: u64) -> (JobModel, Option<AddressInclusionFilterError>) {
        let pruned = self.pruned(now);
        if !self.loses_transactions(now) {
            (pruned, None)
        } else {
            match address_filter(pruned.transactions) {
                Ok(filter) => (
                    JobModel { address_inclusion_filter: filter, ..pruned.with_root() },
                    None,
                ),
                Err(e) => (pruned.with_root(), Some(e)),
            }
        }
    }

    /// What hashing the block under `nonce` leaves, and the error it ends in, if any.
    pub open spec fn hashed(self, nonce: u64) -> (JobModel, Option<EncodeError>) {
        let tried = JobModel { nonce, ..self };
        match hashing_bytes(tried.without_hash()) {
            Ok(buf) => (JobModel { hash: Some(randomx(buf)), ..tried }, None),
            Err(e) => (tried, Some(e)),
        }
    }

    /// What one attempt at `now` under `nonce` leaves, and the error it ends in, if any.
    pub open spec fn attempted(self, now: u64, nonce: u64) -> (JobModel, Option<MineError>) {
        let (fresh, filter_error) = self.refreshed(now);
        match filter_error {
            Some(e) => (fresh, Some(MineError::Filter(e))),
            None => {
                let (tried, encode_error) = fresh.hashed(nonce);
                match encode_error {
                    Some(e) => (tried, Some(MineError::Encode(e))),
                    None => (tried, None),
                }
            },
        }
    }

    /// Whether the Merkle root and the address filter are those of the transactions.
    pub open spec fn commits_to_transactions(self) -> bool {
        &&& self.merkle_tree_root == merkle_root(ids(self.transactions))
        &&& address_filter(self.transactions) == Ok::<
            AddressInclusionFilter,
            AddressInclusionFilterError,
        >(self.address_inclusion_filter)
    }

    /// Whether the hash that is attached is the hash of the block.
    pub open spec fn hash_is_sound(self) -> bool {
        &&& hashing_bytes(self.without_hash()) is Ok
        &&& self.hash == Some(randomx(hashing_bytes(self.without_hash())->Ok_0))
    }
}

impl JobTransaction {
    /// An equal transaction.
    pub fn duplicate(&self) -> (r: JobTransaction)
        ensures
            r@ == self@,
    {
        let r = JobTransaction {
            inputs: self.inputs.clone(),
            outputs: self.outputs.clone(),
            transaction_id: self.transaction_id,
            nonce: self.nonce,
            timestamp: self.timestamp,
        };
        assert(r.inputs@ =~= self.inputs@);
        assert(r.outputs@ =~= self.outputs@);
        r
    }

    /// This transaction in the form that the network takes.
    pub fn export(&self) -> (r: snap_coin::core::transaction::Transaction)
        ensures
            transaction_contents(r) == self@,
    {
        wrap_transaction(self)
    }
}

/// These transactions in the form that the network takes.
fn export_all(transactions: &Vec<JobTransaction>) -> (r: Vec<
    snap_coin::core::transaction::Transaction,
>)
    ensures
        r@.map_values(|t: snap_coin::core::transaction::Transaction| transaction_contents(t))
            == models(transactions@),
{
    let mut r: Vec<snap_coin::core::transaction::Transaction> = Vec::new();
    let mut i: usize = 0;
    while i < transactions.len()
        invariant
            0 <= i <= transactions@.len(),
            r@.len() == i,
            forall|k: int|
                0 <= k < i ==> transaction_contents(#[trigger] r@[k]) == transactions@[k]@,
        decreases transactions@.len() - i,
    {
        r.push(transactions[i].export());
        i += 1;
    }
    assert(r@.map_values(|t: snap_coin::core::transaction::Transaction| transaction_contents(t))
        =~= models(transactions@));
    r
}

impl Job {
    /// An equal block.
    pub fn duplicate(&self) -> (r: Job)
        ensures
            r@ == self@,
    {
        let mut transactions: Vec<JobTransaction> = Vec::new();
        let mut i: usize = 0;
        while i < self.transactions.len()
            invariant
                0 <= i <= self.transactions@.len(),
                transactions@.len() == i,
                forall|k: int|
                    0 <= k < i ==> (#[trigger] transactions@[k])@ == self.transactions@[k]@,
            decreases self.transactions@.len() - i,
        {
            transactions.push(self.transactions[i].duplicate());
            i += 1;
        }
        assert(models(transactions@) =~= models(self.transactions@));
        Job {
            transactions,
            timestamp: self.timestamp,
            nonce: self.nonce,
            meta: JobMetadata {
                block_pow_difficulty: self.meta.block_pow_difficulty,
                tx_pow_difficulty: self.meta.tx_pow_difficulty,
                previous_block: self.meta.previous_block,
                hash: self.meta.hash,
                merkle_tree_root: self.meta.merkle_tree_root,
                address_inclusion_filter: self.meta.address_inclusion_filter.clone(),
            },
        }
    }

    /// This block in the form that the network takes.
    pub fn export(&self) -> (r: snap_coin::core::block::Block)
        ensures
            block_contents(r) == self@,
    {
        let transactions = export_all(&self.transactions);
        wrap_block(self, transactions)
    }

    /// Whether the block can be brought up to date at `now`.
    pub fn can_refresh(&self, now: u64) -> (r: bool)
        ensures
            r == self@.can_refresh(now),
    {
        let mut i: usize = 0;
        let mut loses: bool = false;
        let mut incomplete: bool = false;
        while i < self.transactions.len()
            invariant
                0 <= i <= self.transactions@.len(),
                forall|k: int|
                    0 <= k < i ==> #[trigger] self@.transactions[k].timestamp + EXPIRATION
                        + EXPIRATION_MARGIN <= u64::MAX,
                loses == (live(self@.transactions.take(i as int), now).len() < i),
                incomplete == !(JobModel {
                    transactions: live(self@.transactions.take(i as int), now),
                    ..self@
                }).has_ids(),
                live(self@.transactions.take(i as int), now).len() <= i,
            decreases self.transactions@.len() - i,
        {
            let stamp: u64 = self.transactions[i].timestamp;
            if stamp > u64::MAX - EXPIRATION - EXPIRATION_MARGIN {
                assert(self@.transactions[i as int].timestamp == stamp);
                return false;
            }
            let ghost before = live(self@.transactions.take(i as int), now);
            let ghost after = live(self@.transactions.take(i + 1), now);
            proof {
                lemma_live_step(self@.transactions, now, i as int);
            }
            if stamp + expiration_time() + EXPIRATION_MARGIN < now {
                loses = true;
            } else {
                proof {
                    assert(after == before.push(self@.transactions[i as int]));
                    assert(after.last() == self@.transactions[i as int]);
                    assert(forall|k: int| 0 <= k < before.len() ==> after[k] == before[k]);
                }
                if self.transactions[i].transaction_id.is_none() {
                    incomplete = true;
                }
                proof {
                    let m = JobModel { transactions: after, ..self@ };
                    let n = JobModel { transactions: before, ..self@ };
                    if n.has_ids() && self@.transactions[i as int].transaction_id is Some {
                        assert(m.has_ids());
                    }
                    if m.has_ids() {
                        assert forall|k: int| 0 <= k < before.len() implies #[trigger]
                            before[k].transaction_id is Some by {
                            assert(m.transactions[k].transaction_id is Some);
                        }
                        assert(m.transactions[before.len() as int].transaction_id is Some);
                        assert(n.has_ids());
                    }
                }
            }
            i += 1;
        }
        assert(self@.transactions.take(i as int) =~= self@.transactions);
        !loses || !incomplete
    }

    /// Stamps the block with `now` and drops the transactions that are too old. Says whether any
    /// went.
    pub fn prune(&mut self, now: u64) -> (removed: bool)
        requires
            old(self)@.ages_fit(),
        ensures
            final(self)@ == old(self)@.pruned(now),
            removed == old(self)@.loses_transactions(now),
    {
        let ghost all = self@.transactions;
        let ghost mut seen: int = 0;
        self.timestamp = now;
        let mut removed: bool = false;
        let mut i: usize = 0;
        assert(live(all.take(0), now) =~= Seq::<TransactionModel>::empty()) by {
            reveal(Seq::filter);
        }
        assert(live(all.take(0), now) + all.skip(0) =~= all);
        while i < self.transactions.len()
            invariant
                0 <= seen <= all.len(),
                all == old(self)@.transactions,
                old(self)@.ages_fit(),
                self@ == (JobModel {
                    transactions: live(all.take(seen), now) + all.skip(seen),
                    timestamp: now,
                    ..old(self)@
                }),
                i == live(all.take(seen), now).len(),
                i <= seen,
                removed == (i < seen),
            decreases all.len() - seen,
        {
            proof {
                lemma_live_step(all, now, seen);
                assert(self@.transactions[i as int] == all[seen]);
                assert(self.transactions@[i as int]@ == all[seen]);
            }
            let ghost held = self.transactions@;
            if self.transactions[i].timestamp + expiration_time() + EXPIRATION_MARGIN < now {
                self.transactions.remove(i);
                removed = true;
                proof {
                    assert(models(self.transactions@) =~= models(held).remove(i as int));
                    assert(models(held).remove(i as int) =~= live(all.take(seen + 1), now)
                        + all.skip(seen + 1));
                }
            } else {
                proof {
                    assert(models(held) =~= live(all.take(seen + 1), now) + all.skip(seen + 1));
                }
                i += 1;
            }
            proof {
                seen = seen + 1;
            }
        }
        proof {
            assert(self@.transactions.len() == i + (all.len() - seen));
            assert(seen == all.len());
            assert(all.take(seen) =~= all);
            assert(live(all, now) + all.skip(seen) =~= live(all, now));
        }
        removed
    }

    /// The ids of the transactions.
    fn transaction_ids(&self) -> (r: Vec<[u8; 32]>)
        requires
            self@.has_ids(),
        ensures
            r@ == ids(self@.transactions),
    {
        let mut r: Vec<[u8; 32]> = Vec::new();
        let mut i: usize = 0;
        while i < self.transactions.len()
            invariant
                0 <= i <= self.transactions@.len(),
                self@.has_ids(),
                r@.len() == i,
                forall|k: int|
                    0 <= k < i ==> #[trigger] r@[k] == self@.transactions[k].transaction_id->0,
            decreases self.transactions@.len() - i,
        {
            assert(self@.transactions[i as int].transaction_id is Some);
            r.push(self.transactions[i].transaction_id.unwrap());
            i += 1;
        }
        assert(r@ =~= ids(self@.transactions));
        r
    }

    /// Brings the block up to date at `now`: stamps it, drops the transactions that are too old
    /// and, where any went, commits to those that are left. This always succeeds; an error would
    /// leave the new Merkle root beside the old filter.
    pub fn refresh(&mut self, now: u64) -> (r: Result<(), AddressInclusionFilterError>)
        requires
            old(self)@.can_refresh(now),
        ensures
            final(self)@ == old(self)@.refreshed(now).0,
            r is Ok,
            old(self)@.refreshed(now).1 is None,
            old(self)@.loses_transactions(now) ==> final(self)@.commits_to_transactions(),
    {
        if self.prune(now) {
            let ids = self.transaction_ids();
            self.meta.merkle_tree_root = build_merkle_root(&ids);
            let exported = export_all(&self.transactions);
            match create_filter(&exported) {
                Ok(filter) => {
                    self.meta.address_inclusion_filter = filter;
                },
                Err(e) => {
                    return Err(e);
                },
            }
        }
        Ok(())
    }

    /// Hashes the block under `nonce` and attaches the hash. This always succeeds; an error would
    /// leave the nonce set and the hash as it was.
    pub fn hash_under(&mut self, nonce: u64) -> (r: Result<(), EncodeError>)
        ensures
            final(self)@ == old(self)@.hashed(nonce).0,
            r is Ok,
            old(self)@.hashed(nonce).1 is None,
            final(self)@.hash_is_sound(),
    {
        self.nonce = nonce;
        let exported = self.export();
        match hashing_buf(&exported) {
            Ok(buf) => {
                self.meta.hash = Some(randomx_hash(&buf));
                Ok(())
            },
            Err(e) => Err(e),
        }
    }

    /// One attempt at the block: brings it up to date at `now` and hashes it under `nonce`. This
    /// always succeeds.
    pub fn attempt(&mut self, now: u64, nonce: u64) -> (r: Result<(), MineError>)
        requires
            old(self)@.can_refresh(now),
        ensures
            final(self)@ == old(self)@.attempted(now, nonce).0,
            r is Ok,
            old(self)@.attempted(now, nonce).1 is None,
            final(self)@.hash_is_sound(),
    {
        match self.refresh(now) {
            Ok(_) => {},
            Err(e) => {
                return Err(MineError::Filter(e));
            },
        }
        match self.hash_under(nonce) {
            Ok(_) => Ok(()),
            Err(e) => Err(MineError::Encode(e)),
        }
    }
}

/// Where the ages are in range and every transaction has an id, no moment keeps the block from
/// being brought up to date.
pub proof fn law_complete_blocks_always_refresh(job: JobModel, now: u64)
    requires
        job.always_refreshes(),
    ensures
        job.can_refresh(now),
{
    let keep = |t: TransactionModel| !expired(t, now);
    let kept = live(job.transactions, now);
    assert forall|i: int| 0 <= i < kept.len() implies #[trigger] kept[i].transaction_id
        is Some by {
        assert(kept.contains(kept[i]));
        job.transactions.lemma_filter_contains_rev(keep, kept[i]);
        let k = choose|k: int| 0 <= k < job.transactions.len() && job.transactions[k] == kept[i];
        assert(job.transactions[k].transaction_id is Some);
    }
}

/// Of a block that is brought up to date, a transaction stays exactly when it is not too old, and
/// none is added.
pub proof fn law_exactly_the_live_transactions_stay(
    job: JobModel,
    now: u64,
    transaction: TransactionModel,
)
    ensures
        job.refreshed(now).0.transactions.contains(transaction) <==> job.transactions.contains(
            transaction,
        ) && !expired(transaction, now),
{
    let keep = |t: TransactionModel| !expired(t, now);
    let kept = live(job.transactions, now);
    assert(job.refreshed(now).0.transactions == kept);
    if kept.contains(transaction) {
        job.transactions.lemma_filter_contains_rev(keep, transaction);
        let k = choose|k: int| 0 <= k < kept.len() && kept[k] == transaction;
        job.transactions.lemma_filter_pred(keep, k);
    }
    if job.transactions.contains(transaction) && !expired(transaction, now) {
        let k = choose|k: int|
            0 <= k < job.transactions.len() && job.transactions[k] == transaction;
        job.transactions.lemma_filter_contains(keep, k);
    }
}

/// Keeping what is live at `now` and then what is live at `later` keeps what is live at the later
/// of the two.
proof fn lemma_live_twice(transactions: Seq<TransactionModel>, now: u64, later: u64)
    requires
        now <= later,
    ensures
        live(live(transactions, now), later) == live(transactions, later),
    decreases transactions.len(),
{
    reveal(Seq::filter);
    if transactions.len() > 0 {
        lemma_live_twice(transactions.drop_last(), now, later);
        let rest = live(transactions.drop_last(), now);
        let last = transactions.last();
        if !expired(last, now) {
            assert(rest.push(last).drop_last() =~= rest);
        }
    }
}

/// Where every transaction is live, all of them are kept.
proof fn lemma_all_live(transactions: Seq<TransactionModel>, now: u64)
    requires
        live(transactions, now).len() == transactions.len(),
    ensures
        live(transactions, now) == transactions,
    decreases transactions.len(),
{
    reveal(Seq::filter);
    if transactions.len() > 0 {
        transactions.drop_last().lemma_filter_len(|t: TransactionModel| !expired(t, now));
        lemma_all_live(transactions.drop_last(), now);
        assert(transactions.drop_last().push(transactions.last()) =~= transactions);
    }
}

/// Bringing a block up to date twice at one moment is the same as doing it once.
pub proof fn law_refresh_is_idempotent(job: JobModel, now: u64)
    requires
        job.refreshed(now).1 is None,
    ensures
        job.refreshed(now).0.refreshed(now) == job.refreshed(now),
{
    lemma_live_twice(job.transactions, now, now);
    let once = job.refreshed(now).0;
    assert(live(once.transactions, now) == once.transactions);
    assert(once.pruned(now) =~= once);
}

/// A block loses the same transactions however often it is brought up to date on the way: only the
/// last moment counts.
pub proof fn law_pruning_depends_on_the_last_moment(job: JobModel, now: u64, later: u64)
    requires
        now <= later,
    ensures
        job.refreshed(now).0.refreshed(later).0.transactions == job.refreshed(
            later,
        ).0.transactions,
{
    lemma_live_twice(job.transactions, now, later);
}

/// A block that commits to its transactions still does after it was brought up to date.
pub proof fn law_refresh_keeps_the_commitments(job: JobModel, now: u64)
    requires
        job.commits_to_transactions(),
        job.refreshed(now).1 is None,
    ensures
        job.refreshed(now).0.commits_to_transactions(),
{
    job.transactions.lemma_filter_len(|t: TransactionModel| !expired(t, now));
    if !job.loses_transactions(now) {
        lemma_all_live(job.transactions, now);
    }
}

/// An attempt changes nothing of the block but its transactions, its stamp, its nonce, its hash
/// and the two commitments to the transactions; and it takes the nonce that it was given unless
/// the filter could not be built.
pub proof fn law_attempt_keeps_the_rest(job: JobModel, now: u64, nonce: u64)
    ensures
        ({
            let after = job.attempted(now, nonce).0;
            &&& after.block_pow_difficulty == job.block_pow_difficulty
            &&& after.tx_pow_difficulty == job.tx_pow_difficulty
            &&& after.previous_block == job.previous_block
            &&& after.timestamp == now
            &&& job.refreshed(now).1 is None ==> after.nonce == nonce
        }),
{
}

/// The hash that an attempt attaches is the hash of the block as it then stands: attaching it does
/// not change the bytes that are hashed.
pub proof fn law_attached_hash_is_sound(job: JobModel, now: u64, nonce: u64)
    requires
        job.attempted(now, nonce).1 is None,
    ensures
        job.attempted(now, nonce).0.hash_is_sound(),
{
    let fresh = job.refreshed(now).0;
    let tried = JobModel { nonce, ..fresh };
    assert(fresh.hashed(nonce).0.without_hash() =~= tried.without_hash());
}

/// A block stays fit to be brought up to date: what one attempt leaves can be refreshed at any
/// later moment at which the block itself could.
pub proof fn law_attempt_keeps_refreshable(job: JobModel, now: u64, nonce: u64, later: u64)
    requires
        job.can_refresh(later),
        now <= later,
    ensures
        job.attempted(now, nonce).0.can_refresh(later),
{
    let keep = |t: TransactionModel| !expired(t, now);
    let after = job.attempted(now, nonce).0;
    lemma_live_twice(job.transactions, now, later);
    assert(after.transactions == live(job.transactions, now));
    assert forall|i: int| 0 <= i < after.transactions.len() implies #[trigger]
        after.transactions[i].timestamp + EXPIRATION + EXPIRATION_MARGIN <= u64::MAX by {
        assert(after.transactions.contains(after.transactions[i]));
        job.transactions.lemma_filter_contains_rev(keep, after.transactions[i]);
        let k = choose|k: int|
            0 <= k < job.transactions.len() && job.transactions[k] == after.transactions[i];
        assert(job.transactions[k].timestamp + EXPIRATION + EXPIRATION_MARGIN <= u64::MAX);
    }
    job.transactions.lemma_filter_len(keep);
    assert(after.pruned(later).transactions == job.pruned(later).transactions);
    if after.loses_transactions(later) {
        assert(job.pruned(later).has_ids());
        assert forall|i: int| 0 <= i < after.pruned(later).transactions.len() implies #[trigger]
            after.pruned(later).transactions[i].transaction_id is Some by {
            assert(job.pruned(later).transactions[i].transaction_id is Some);
        }
    }
}

/// One more transaction is kept, or not, behind those kept before.
proof fn lemma_live_step(transactions: Seq<TransactionModel>, now: u64, i: int)
    requires
        0 <= i < transactions.len(),
    ensures
        live(transactions.take(i + 1), now) == (if expired(transactions[i], now) {
            live(transactions.take(i), now)
        } else {
            live(transactions.take(i), now).push(transactions[i])
        }),
{
    reveal(Seq::filter);
    assert(transactions.take(i + 1).drop_last() =~= transactions.take(i));
}

} // verus!
