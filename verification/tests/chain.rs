use snap_coin::crypto::address_inclusion_filter::AddressInclusionFilter;
use snap_coin::crypto::keys::Public;
use snap_coin::crypto::merkle_tree::MerkleTree;
use snap_coin_miner::chain::{Job, JobMetadata, JobTransaction, TxInput, TxOutput};

fn no_addresses() -> AddressInclusionFilter {
    AddressInclusionFilter::create_filter(&[]).unwrap()
}

fn transaction(mark: u8, timestamp: u64) -> JobTransaction {
    JobTransaction {
        inputs: vec![TxInput {
            transaction_id: [mark; 32],
            output_index: mark as usize,
            signature: Some([mark; 64]),
            output_owner: [mark.wrapping_add(1); 32],
        }],
        outputs: vec![TxOutput { amount: mark as u64, receiver: [mark.wrapping_add(2); 32] }],
        transaction_id: Some([mark; 32]),
        nonce: mark as u64,
        timestamp,
    }
}

fn job(transactions: Vec<JobTransaction>) -> Job {
    Job {
        transactions,
        timestamp: 1,
        nonce: 7,
        meta: JobMetadata {
            block_pow_difficulty: [0; 32],
            tx_pow_difficulty: [2; 32],
            previous_block: [3; 32],
            hash: None,
            merkle_tree_root: [4; 32],
            address_inclusion_filter: no_addresses(),
        },
    }
}

fn marks(job: &Job) -> Vec<u64> {
    job.transactions.iter().map(|t| t.nonce).collect()
}

fn root_of(ids: &[u8]) -> [u8; 32] {
    let ids: Vec<snap_coin::crypto::Hash> =
        ids.iter().map(|m| snap_coin::crypto::Hash::new_from_buf([*m; 32])).collect();
    MerkleTree::build(&ids).root_hash()
}

#[test]
fn transactions_go_after_their_last_second() {
    let mut block = job(vec![transaction(1, 1000)]);
    assert!(!block.prune(1360));
    assert_eq!(marks(&block), vec![1]);
    assert_eq!(block.timestamp, 1360);
    assert!(block.prune(1361));
    assert!(block.transactions.is_empty());
}

#[test]
fn the_transactions_that_stay_keep_their_order() {
    let mut block = job(vec![
        transaction(1, 2000),
        transaction(2, 10),
        transaction(3, 1900),
        transaction(4, 20),
        transaction(5, 1800),
    ]);
    assert!(block.prune(2000));
    assert_eq!(marks(&block), vec![1, 3, 5]);
}

#[test]
fn refreshing_commits_to_what_is_left() {
    let mut block =
        job(vec![transaction(1, 2000), transaction(2, 10), transaction(3, 1900)]);
    block.refresh(2000).unwrap();
    assert_eq!(marks(&block), vec![1, 3]);
    assert_eq!(block.meta.merkle_tree_root, root_of(&[1, 3]));
    assert_ne!(block.meta.merkle_tree_root, root_of(&[1, 2, 3]));
    let exported = block.export();
    assert_eq!(
        exported.meta.address_inclusion_filter,
        AddressInclusionFilter::create_filter(&exported.transactions).unwrap()
    );
    let filter = exported.meta.address_inclusion_filter;
    assert!(filter.search_filter(Public::new_from_buf(&[2; 32])).unwrap());
    assert!(filter.search_filter(Public::new_from_buf(&[5; 32])).unwrap());
    assert_eq!(block.nonce, 7);
    assert_eq!(block.meta.hash, None);
}

#[test]
fn refreshing_without_loss_leaves_the_commitments() {
    let mut block = job(vec![transaction(1, 2000)]);
    block.refresh(2100).unwrap();
    assert_eq!(block.timestamp, 2100);
    assert_eq!(block.meta.merkle_tree_root, [4; 32]);
    assert_eq!(block.export().meta.address_inclusion_filter, no_addresses());
}

#[test]
fn a_block_that_loses_everything_has_a_root_of_zeros() {
    let mut block = job(vec![transaction(1, 0)]);
    block.refresh(5000).unwrap();
    assert_eq!(block.meta.merkle_tree_root, [0; 32]);
    assert_eq!(block.export().meta.address_inclusion_filter, no_addresses());
}

#[test]
fn refreshing_twice_is_refreshing_once() {
    let mut once = job(vec![transaction(1, 2000), transaction(2, 10)]);
    once.refresh(2000).unwrap();
    let mut twice = once.duplicate();
    twice.refresh(2000).unwrap();
    assert_eq!(once.export(), twice.export());
}

#[test]
fn only_the_last_moment_counts() {
    let mut stepwise = job(vec![transaction(1, 2000), transaction(2, 10), transaction(3, 400)]);
    stepwise.refresh(400).unwrap();
    stepwise.refresh(900).unwrap();
    let mut at_once = job(vec![transaction(1, 2000), transaction(2, 10), transaction(3, 400)]);
    at_once.refresh(900).unwrap();
    assert_eq!(stepwise.export(), at_once.export());
}

#[test]
fn blocks_that_cannot_be_refreshed() {
    let late = job(vec![transaction(1, u64::MAX - 359)]);
    assert!(!late.can_refresh(0));
    let just = job(vec![transaction(1, u64::MAX - 360)]);
    assert!(just.can_refresh(0));
    let mut nameless = transaction(2, 2000);
    nameless.transaction_id = None;
    let block = job(vec![nameless, transaction(1, 10)]);
    assert!(block.can_refresh(10));
    assert!(!block.can_refresh(2000));
    assert!(block.can_refresh(5000));
}

#[test]
fn duplicates_are_equal() {
    let mut block = job(vec![transaction(1, 2000), transaction(2, 10)]);
    block.meta.hash = Some([9; 32]);
    assert_eq!(block.duplicate().export(), block.export());
}

#[test]
fn exporting_keeps_every_field() {
    let mut block = job(vec![transaction(6, 2000)]);
    block.meta.hash = Some([9; 32]);
    let exported = block.export();
    assert_eq!(exported.timestamp, 1);
    assert_eq!(exported.nonce, 7);
    assert_eq!(exported.meta.block_pow_difficulty, [0; 32]);
    assert_eq!(exported.meta.tx_pow_difficulty, [2; 32]);
    assert_eq!(exported.meta.previous_block.dump_buf(), [3; 32]);
    assert_eq!(exported.meta.hash.unwrap().dump_buf(), [9; 32]);
    assert_eq!(exported.meta.merkle_tree_root, [4; 32]);
    let tx = &exported.transactions[0];
    assert_eq!(tx.nonce, 6);
    assert_eq!(tx.timestamp, 2000);
    assert_eq!(tx.transaction_id.unwrap().dump_buf(), [6; 32]);
    assert_eq!(tx.inputs[0].transaction_id.dump_buf(), [6; 32]);
    assert_eq!(tx.inputs[0].output_index, 6);
    assert_eq!(tx.inputs[0].signature.unwrap().dump_buf(), [6; 64]);
    assert_eq!(tx.inputs[0].output_owner.dump_buf(), &[7; 32]);
    assert_eq!(tx.outputs[0].amount, 6);
    assert_eq!(tx.outputs[0].receiver.dump_buf(), &[8; 32]);
}

#[test]
fn attaching_a_hash_does_not_change_what_is_hashed() {
    let mut block = job(vec![transaction(6, 2000)]);
    let before = block.export().get_hashing_buf().unwrap();
    block.meta.hash = Some([9; 32]);
    assert_eq!(block.export().get_hashing_buf().unwrap(), before);
    block.nonce = 8;
    assert_ne!(block.export().get_hashing_buf().unwrap(), before);
}
