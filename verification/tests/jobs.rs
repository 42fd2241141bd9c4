use snap_coin::crypto::address_inclusion_filter::AddressInclusionFilter;
use snap_coin_miner::chain::{Job, JobMetadata, JobTransaction, TxInput, TxOutput};
use snap_coin_miner::jobs::{
    job_error, next_job_id, plan_refresh, refreshes_at_start, select_mempool, select_mempool_at,
    ChainUpdate, RefreshAction, RefreshEvent, RefreshLatch, RefreshPhase, RefreshPlan,
};
use snap_coin_miner::stats::StatEvent;

fn no_addresses() -> AddressInclusionFilter {
    AddressInclusionFilter::create_filter(&[]).unwrap()
}

fn transaction(mark: u8, timestamp: u64) -> JobTransaction {
    JobTransaction {
        inputs: vec![TxInput {
            transaction_id: [mark; 32],
            output_index: mark as usize,
            signature: Some([mark; 64]),
            output_owner: [mark.wrapping_add(1); 32],
        }],
        outputs: vec![TxOutput { amount: mark as u64, receiver: [mark.wrapping_add(2); 32] }],
        transaction_id: Some([mark; 32]),
        nonce: mark as u64,
        timestamp,
    }
}

fn job(transactions: Vec<JobTransaction>) -> Job {
    Job {
        transactions,
        timestamp: 1,
        nonce: 7,
        meta: JobMetadata {
            block_pow_difficulty: [0; 32],
            tx_pow_difficulty: [2; 32],
            previous_block: [3; 32],
            hash: None,
            merkle_tree_root: [4; 32],
            address_inclusion_filter: no_addresses(),
        },
    }
}

fn marks(transactions: &Vec<JobTransaction>) -> Vec<u64> {
    transactions.iter().map(|t| t.nonce).collect()
}

#[test]
fn alone_every_event_makes_a_block() {
    assert!(matches!(plan_refresh(false, None), RefreshPlan::Build));
    assert!(matches!(plan_refresh(false, Some(ChainUpdate::Transaction)), RefreshPlan::Build));
    let event = Some(ChainUpdate::Block(job(vec![])));
    assert!(matches!(plan_refresh(false, event), RefreshPlan::Build));
}

#[test]
fn a_pool_sends_its_jobs() {
    let event = Some(ChainUpdate::Block(job(vec![])));
    match plan_refresh(true, event) {
        RefreshPlan::Publish(sent) => assert_eq!(sent.export(), job(vec![]).export()),
        _ => panic!("the block of a pool is a job"),
    }
    assert!(matches!(plan_refresh(true, None), RefreshPlan::Nothing));
    assert!(matches!(plan_refresh(true, Some(ChainUpdate::Transaction)), RefreshPlan::Nothing));
    let expiration = Some(ChainUpdate::TransactionExpiration);
    assert!(matches!(plan_refresh(true, expiration), RefreshPlan::Nothing));
}

#[test]
fn only_a_miner_alone_starts_with_a_block() {
    assert!(refreshes_at_start(false));
    assert!(!refreshes_at_start(true));
}

#[test]
fn one_refresh_at_a_time() {
    let mut latch = RefreshLatch::new();
    assert!(latch.enter());
    assert!(!latch.enter());
    assert!(!latch.enter());
    latch.leave();
    assert!(latch.enter());
    latch.leave();
    assert!(latch.enter());
}

#[test]
fn job_ids_count_up() {
    assert_eq!(next_job_id(0), 1);
    assert_eq!(next_job_id(41), 42);
}

#[test]
fn job_errors_are_reported() {
    let event: StatEvent<f64> = job_error("channel closed");
    match event {
        StatEvent::Event(message) => assert_eq!(message, "Job error: channel closed"),
        _ => panic!("a job error is a message"),
    }
}

#[test]
fn expired_transactions_are_not_mined() {
    let mempool = vec![
        transaction(1, 655),
        transaction(2, 656),
        transaction(3, 0),
        transaction(4, 1000),
        transaction(5, 650),
    ];
    assert_eq!(marks(&select_mempool_at(&mempool, 1000)), vec![2, 4]);
    assert_eq!(marks(&select_mempool_at(&mempool, 999)), vec![1, 2, 4]);
    assert_eq!(marks(&select_mempool_at(&mempool, 1345)), Vec::<u64>::new());
    assert_eq!(marks(&select_mempool_at(&mempool, 1344)), vec![4]);
    assert_eq!(marks(&select_mempool_at(&mempool, 0)), vec![1, 2, 3, 4, 5]);
}

#[test]
fn every_stamp_can_be_judged() {
    let mempool = vec![transaction(1, u64::MAX), transaction(2, 0)];
    assert_eq!(marks(&select_mempool_at(&mempool, u64::MAX)), vec![1]);
    assert_eq!(marks(&select_mempool_at(&mempool, 344)), vec![1, 2]);
    assert_eq!(marks(&select_mempool_at(&mempool, 345)), vec![1]);
}

#[test]
fn room_is_left_for_the_reward() {
    let mempool: Vec<JobTransaction> = (0..600).map(|_| transaction(1, 900)).collect();
    assert_eq!(select_mempool_at(&mempool, 1000).len(), 499);
    let few: Vec<JobTransaction> = (0..499).map(|_| transaction(1, 900)).collect();
    assert_eq!(select_mempool_at(&few, 1000).len(), 499);
}

#[test]
fn only_the_front_of_the_mempool_is_looked_at() {
    let mut mempool: Vec<JobTransaction> = (0..499).map(|_| transaction(1, 10)).collect();
    mempool.push(transaction(2, 1000));
    assert!(select_mempool_at(&mempool, 1000).is_empty());
    mempool[498].timestamp = 1000;
    assert_eq!(marks(&select_mempool_at(&mempool, 1000)), vec![1]);
}

#[test]
fn selected_transactions_are_unchanged() {
    let mempool = vec![transaction(9, 900)];
    let chosen = select_mempool_at(&mempool, 1000);
    assert_eq!(chosen[0].export(), mempool[0].export());
}

#[test]
fn selecting_by_the_clock() {
    let now = chrono::Utc::now().timestamp() as u64;
    let mempool = vec![
        transaction(1, 10),
        transaction(2, 1 << 60),
        transaction(3, now - 400),
        transaction(4, now - 100),
    ];
    assert_eq!(marks(&select_mempool(&mempool)), vec![2, 4]);
    assert!(select_mempool(&vec![]).is_empty());
}

/// The actions that a refresh asks for, and the numbers that it announces, when `raised` jobs were
/// announced before.
fn refreshed(is_pool: bool, event: Option<ChainUpdate>, raised: u64) -> (Vec<&'static str>, Vec<u64>) {
    let (mut phase, mut action) = RefreshPhase::begin(is_pool, event);
    let mut actions = Vec::new();
    let mut announced = Vec::new();
    loop {
        let done = match action {
            RefreshAction::Build => {
                actions.push("build");
                RefreshEvent::Built(job(vec![transaction(1, 10)]))
            }
            RefreshAction::Raise => {
                actions.push("raise");
                RefreshEvent::Raised(raised)
            }
            RefreshAction::Announce(id) => {
                actions.push("announce");
                announced.push(id);
                RefreshEvent::Announced
            }
            RefreshAction::Send(sent) => {
                actions.push("send");
                assert_eq!(sent.export(), job(vec![transaction(1, 10)]).export());
                RefreshEvent::Sent
            }
            RefreshAction::End => return (actions, announced),
        };
        let (next, asked) = phase.advance(done);
        phase = next;
        action = asked;
    }
}

#[test]
fn jobs_are_announced_before_they_are_sent() {
    assert_eq!(refreshed(false, None, 0), (vec!["build", "raise", "announce", "send"], vec![1]));
    let event = Some(ChainUpdate::Block(job(vec![transaction(1, 10)])));
    assert_eq!(refreshed(true, event, 41), (vec!["raise", "announce", "send"], vec![42]));
    assert_eq!(refreshed(true, Some(ChainUpdate::Transaction), 41), (vec![], vec![]));
}

#[test]
fn announced_numbers_count_up() {
    let mut id = 7;
    let mut announced = Vec::new();
    for _ in 0..5 {
        announced.extend(refreshed(false, Some(ChainUpdate::Transaction), id).1);
        refreshed(true, None, id);
        id += 1;
    }
    assert_eq!(announced, vec![8, 9, 10, 11, 12]);
}
