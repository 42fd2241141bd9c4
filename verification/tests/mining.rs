use snap_coin::crypto::address_inclusion_filter::AddressInclusionFilter;
use snap_coin::crypto::merkle_tree::MerkleTree;
use snap_coin_miner::chain::{Job, JobMetadata, JobTransaction, TxInput, TxOutput};
use snap_coin_miner::console::{starting_message, Delivery, DeliveryStep};
use snap_coin_miner::iteration::{FrontEnd, RoundAction, RoundEvent, RoundPhase};
use snap_coin_miner::mining::{
    shutdown_message, JobPoll, MineStep, MiningThread, PollStep, StopReason,
};
use snap_coin_miner::pool::PoolInfo;
use snap_coin_miner::stats::StatEvent;

fn no_addresses() -> AddressInclusionFilter {
    AddressInclusionFilter::create_filter(&[]).unwrap()
}

fn transaction(mark: u8, timestamp: u64) -> JobTransaction {
    JobTransaction {
        inputs: vec![TxInput {
            transaction_id: [mark; 32],
            output_index: mark as usize,
            signature: Some([mark; 64]),
            output_owner: [mark.wrapping_add(1); 32],
        }],
        outputs: vec![TxOutput { amount: mark as u64, receiver: [mark.wrapping_add(2); 32] }],
        transaction_id: Some([mark; 32]),
        nonce: mark as u64,
        timestamp,
    }
}

fn job(transactions: Vec<JobTransaction>) -> Job {
    Job {
        transactions,
        timestamp: 1,
        nonce: 7,
        meta: JobMetadata {
            block_pow_difficulty: [0; 32],
            tx_pow_difficulty: [2; 32],
            previous_block: [3; 32],
            hash: None,
            merkle_tree_root: [4; 32],
            address_inclusion_filter: no_addresses(),
        },
    }
}

fn hashed(hash: [u8; 32], difficulty: [u8; 32]) -> Job {
    let mut block = job(vec![transaction(1, 2000)]);
    block.meta.hash = Some(hash);
    block.meta.block_pow_difficulty = difficulty;
    block
}

fn number(low: u8) -> [u8; 32] {
    let mut bytes = [0u8; 32];
    bytes[31] = low;
    bytes
}

/// What a thread of a front end is asked to do when it is told these things from the start on.
fn asked(thread: &MiningThread, front: FrontEnd, told: &[RoundEvent]) -> Vec<RoundAction> {
    let mut phase = RoundPhase::Begin;
    let mut actions = Vec::new();
    for event in told {
        let (next, action) = thread.advance(front, phase, *event);
        phase = next;
        actions.push(action);
    }
    actions
}

#[test]
fn a_thread_without_a_job_looks_for_one() {
    let thread = MiningThread::new(0, false, None);
    let told = [RoundEvent::Done, RoundEvent::JobId(0), RoundEvent::Shutdown(false)];
    assert_eq!(
        asked(&thread, FrontEnd::Dashboard, &told),
        vec![RoundAction::ReadJobId, RoundAction::ReadShutdown, RoundAction::Look]
    );
    let told = [RoundEvent::Done, RoundEvent::JobId(0), RoundEvent::Shutdown(true)];
    assert_eq!(
        asked(&thread, FrontEnd::Dashboard, &told)[2],
        RoundAction::Stop(StopReason::Shutdown)
    );
    let told = [RoundEvent::Done, RoundEvent::JobId(0), RoundEvent::Missed, RoundEvent::Closed];
    assert_eq!(
        asked(&thread, FrontEnd::Console, &told),
        vec![
            RoundAction::ReadJobId,
            RoundAction::Look,
            RoundAction::Look,
            RoundAction::Stop(StopReason::ChannelClosed),
        ]
    );
}

#[test]
fn a_thread_that_is_behind_looks_for_a_job() {
    let mut thread = MiningThread::new(0, false, None);
    assert!(thread.awaits_job(0));
    thread.adopt(job(vec![]));
    assert_eq!(thread.local_job_id, 1);
    assert!(!thread.awaits_job(1));
    assert!(!thread.awaits_job(0));
    assert!(thread.awaits_job(2));
    let told = [
        RoundEvent::Done,
        RoundEvent::JobId(2),
        RoundEvent::Shutdown(false),
        RoundEvent::Missed,
        RoundEvent::Shutdown(false),
        RoundEvent::Taken,
    ];
    assert_eq!(
        asked(&thread, FrontEnd::Dashboard, &told),
        vec![
            RoundAction::ReadJobId,
            RoundAction::ReadShutdown,
            RoundAction::Look,
            RoundAction::ReadShutdown,
            RoundAction::Look,
            RoundAction::ReadJobId,
        ]
    );
}

#[test]
fn a_thread_whose_job_is_not_current_sleeps() {
    let mut thread = MiningThread::new(0, false, None);
    thread.adopt(job(vec![]));
    let told = [RoundEvent::Done, RoundEvent::JobId(1), RoundEvent::JobId(2), RoundEvent::Done];
    for front in [FrontEnd::Dashboard, FrontEnd::Console] {
        assert_eq!(
            asked(&thread, front, &told),
            vec![
                RoundAction::ReadJobId,
                RoundAction::ReadJobId,
                RoundAction::Pause(10),
                RoundAction::Finish,
            ]
        );
    }
}

#[test]
fn a_round_of_the_dashboard_counts_and_reports_before_it_hands_in() {
    let mut thread = MiningThread::new(0, false, None);
    thread.adopt(hashed(number(36), number(37)));
    let told = [
        RoundEvent::Done,
        RoundEvent::JobId(1),
        RoundEvent::JobId(1),
        RoundEvent::Attempted(Some(100)),
        RoundEvent::Done,
        RoundEvent::Done,
        RoundEvent::JobId(1),
        RoundEvent::Done,
    ];
    assert_eq!(
        asked(&thread, FrontEnd::Dashboard, &told),
        vec![
            RoundAction::ReadJobId,
            RoundAction::ReadJobId,
            RoundAction::Attempt,
            RoundAction::Count,
            RoundAction::Report(100),
            RoundAction::ReadJobId,
            RoundAction::Submit(1),
            RoundAction::Finish,
        ]
    );
    let told = [
        RoundEvent::Done,
        RoundEvent::JobId(1),
        RoundEvent::JobId(1),
        RoundEvent::Attempted(None),
        RoundEvent::Done,
        RoundEvent::JobId(2),
    ];
    assert_eq!(
        asked(&thread, FrontEnd::Dashboard, &told)[3..],
        [RoundAction::Count, RoundAction::ReadJobId, RoundAction::Finish]
    );
}

#[test]
fn a_round_of_the_console_hands_in_before_it_counts() {
    let mut thread = MiningThread::new(0, false, None);
    thread.adopt(hashed(number(36), number(37)));
    let told = [
        RoundEvent::Done,
        RoundEvent::JobId(1),
        RoundEvent::JobId(1),
        RoundEvent::Attempted(None),
        RoundEvent::JobId(1),
        RoundEvent::Done,
        RoundEvent::Done,
    ];
    assert_eq!(
        asked(&thread, FrontEnd::Console, &told)[2..],
        [
            RoundAction::Attempt,
            RoundAction::ReadJobId,
            RoundAction::Submit(1),
            RoundAction::Count,
            RoundAction::Finish,
        ]
    );
    let mut poor = MiningThread::new(0, false, None);
    poor.adopt(hashed(number(37), number(37)));
    let told = [
        RoundEvent::Done,
        RoundEvent::JobId(1),
        RoundEvent::JobId(1),
        RoundEvent::Attempted(None),
        RoundEvent::Done,
    ];
    assert_eq!(
        asked(&poor, FrontEnd::Console, &told)[3..],
        [RoundAction::Count, RoundAction::Finish]
    );
    assert_eq!(
        asked(&poor, FrontEnd::Dashboard, &told)[3..],
        [RoundAction::Count, RoundAction::Finish]
    );
}

#[test]
fn a_job_is_taken_with_its_nonce() {
    let mut thread = MiningThread::new(0, false, None);
    let step: PollStep<f64> = thread.take_poll(JobPoll::Job(job(vec![])), 77);
    assert!(matches!(step, PollStep::Ready));
    assert_eq!(thread.local_job_id, 1);
    assert_eq!(thread.current_block.as_ref().unwrap().nonce, 77);
    assert_eq!(thread.current_block.as_ref().unwrap().meta.previous_block, [3; 32]);
}

#[test]
fn jobs_start_from_different_nonces() {
    let mut nonces: Vec<u64> = Vec::new();
    for _ in 0..4 {
        let mut thread = MiningThread::new(0, false, None);
        let step: PollStep<f64> = thread.on_poll(JobPoll::Job(job(vec![])));
        assert!(matches!(step, PollStep::Ready));
        nonces.push(thread.current_block.unwrap().nonce);
    }
    assert!(nonces.iter().any(|n| *n != nonces[0]));
}

#[test]
fn an_empty_channel_is_polled_again() {
    let mut thread = MiningThread::new(0, false, None);
    let step: PollStep<f64> = thread.on_poll(JobPoll::Empty);
    assert!(matches!(step, PollStep::Pause(5)));
    assert_eq!(thread.local_job_id, 0);
    assert!(thread.current_block.is_none());
}

#[test]
fn lost_jobs_are_reported() {
    let mut thread = MiningThread::new(2, false, None);
    let step: PollStep<f64> = thread.on_poll(JobPoll::Lagged(12));
    match step {
        PollStep::Report(StatEvent::Event(message)) => {
            assert_eq!(message, "Thread 3 lagged by 12 jobs")
        }
        _ => panic!("lost jobs are reported"),
    }
    assert_eq!(thread.local_job_id, 0);
}

#[test]
fn a_closed_channel_ends_the_thread() {
    let mut thread = MiningThread::new(2, false, None);
    let step: PollStep<f64> = thread.on_poll(JobPoll::Closed);
    assert!(matches!(step, PollStep::Closed));
    assert_eq!(StopReason::ChannelClosed.message(2), "Job channel closed");
    assert_eq!(StopReason::Shutdown.message(2), "Requested thread shutdown 2");
    assert_eq!(shutdown_message(-1), "Requested thread shutdown -1");
}

#[test]
fn only_the_current_job_is_mined() {
    let mut thread = MiningThread::new(0, false, None);
    thread.adopt(job(vec![]));
    assert_eq!(thread.mine_step(1), MineStep::Attempt);
    assert_eq!(thread.mine_step(2), MineStep::Pause(10));
    assert_eq!(thread.mine_step(0), MineStep::Pause(10));
}

#[test]
fn threads_keep_step_with_the_announcements() {
    let mut thread = MiningThread::new(0, false, None);
    for announced in 1..6u64 {
        thread.adopt(job(vec![]));
        assert_eq!(thread.mine_step(announced), MineStep::Attempt);
    }
    let mut behind = MiningThread::new(0, false, None);
    for announced in 3..8u64 {
        behind.adopt(job(vec![]));
        assert_eq!(behind.mine_step(announced), MineStep::Pause(10));
    }
}

#[test]
fn a_block_below_its_target_is_submitted() {
    let mut thread = MiningThread::new(4, false, None);
    thread.adopt(hashed(number(36), number(37)));
    assert!(thread.qualifies());
    let submission = thread.submission(1).unwrap();
    assert_eq!(submission.message, "Thread 5 found block: 10");
    assert_eq!(submission.block.export(), hashed(number(36), number(37)).export());
}

#[test]
fn a_block_at_its_target_is_not_submitted() {
    let mut thread = MiningThread::new(4, false, None);
    thread.adopt(hashed(number(37), number(37)));
    assert!(!thread.qualifies());
    assert!(thread.submission(1).is_none());
}

#[test]
fn a_pool_sets_the_target() {
    let pool = PoolInfo { pool_difficulty: number(100) };
    let mut thread = MiningThread::new(0, true, Some(pool));
    thread.adopt(hashed(number(35), number(0)));
    assert!(thread.qualifies());
    assert_eq!(thread.submission(1).unwrap().message, "Thread 1 found share: z");
    let mut strict =
        MiningThread::new(0, true, Some(PoolInfo { pool_difficulty: number(10) }));
    strict.adopt(hashed(number(35), number(255)));
    assert!(!strict.qualifies());
}

#[test]
fn a_stale_block_is_not_submitted() {
    let mut thread = MiningThread::new(4, false, None);
    thread.adopt(hashed(number(1), number(37)));
    assert!(thread.qualifies());
    assert!(thread.submission(2).is_none());
    assert!(thread.submission(0).is_none());
}

#[test]
fn reports_name_the_thread() {
    let thread = MiningThread::new(4, false, None);
    let report: StatEvent<f64> = thread.hash_report(100);
    assert!(matches!(report, StatEvent::ThreadHash(4, 100)));
}

#[test]
fn without_a_job_nothing_is_attempted() {
    let mut thread = MiningThread::new(4, false, None);
    assert!(!thread.can_attempt(0));
    assert!(thread.attempt().is_none());
    assert!(thread.draw().is_none());
    assert_eq!(thread.thread_hashes, 0);
}

#[test]
fn jobs_that_cannot_be_attempted_are_left_alone() {
    let mut thread = MiningThread::new(4, false, None);
    let mut spent = job(vec![]);
    spent.nonce = u64::MAX;
    thread.adopt(spent);
    assert!(thread.attempt().is_none());
    let mut late = MiningThread::new(4, false, None);
    late.adopt(job(vec![transaction(1, u64::MAX)]));
    assert!(late.attempt().is_none());
    assert!(late.draw().is_none());
    assert_eq!(late.current_block.unwrap().timestamp, 1);
}

#[test]
fn console_threads_take_jobs_as_they_come() {
    let mut thread = MiningThread::new(2, false, None);
    assert!(thread.awaits_job(0));
    assert!(matches!(thread.on_delivery(Delivery::Job(job(vec![]))), DeliveryStep::Ready));
    assert_eq!(thread.current_block.as_ref().unwrap().nonce, 7);
    assert!(!thread.awaits_job(1));
    assert!(thread.awaits_job(2));
    match thread.on_delivery(Delivery::Lagged(3)) {
        DeliveryStep::Warn(line) => {
            assert_eq!(line, "[THREAD 2] Warning: Lagged by 3 jobs, catching up...")
        }
        _ => panic!("lost jobs are printed"),
    }
    assert!(matches!(thread.on_delivery(Delivery::Closed), DeliveryStep::Closed));
    assert_eq!(thread.local_job_id, 1);
    assert_eq!(starting_message(2), "[THREAD 3] Starting miner");
}

#[test]
fn console_submissions() {
    let mut thread = MiningThread::new(2, false, None);
    thread.adopt(hashed(number(36), number(37)));
    assert!(thread.outdoes_target());
    let submission = thread.console_submission(1).unwrap();
    assert_eq!(submission.message, "[THREAD 2] Found block 10");
    assert_eq!(submission.block.export(), hashed(number(36), number(37)).export());
    assert!(thread.console_submission(2).is_none());
    let mut pool = MiningThread::new(0, true, Some(PoolInfo { pool_difficulty: [255; 32] }));
    pool.adopt(hashed(number(255), number(0)));
    assert_eq!(pool.console_submission(1).unwrap().message, "[THREAD 0] Found share 73");
    let mut equal = MiningThread::new(0, false, None);
    equal.adopt(hashed([9; 32], [9; 32]));
    assert!(!equal.outdoes_target());
    assert!(equal.console_submission(1).is_none());
}

#[test]
fn both_ways_of_holding_a_hash_against_its_target_agree() {
    let samples = [[0; 32], number(1), number(200), [1; 32], [255; 32]];
    for hash in &samples {
        for target in &samples {
            let mut thread = MiningThread::new(0, false, None);
            thread.adopt(hashed(*hash, *target));
            assert_eq!(thread.qualifies(), thread.outdoes_target());
            assert_eq!(thread.qualifies(), target > hash);
        }
    }
}

/// The first RandomX hash fills a cache of 256 MiB, which takes long in a build that is not
/// optimised: where it is not done in time, there is nothing to compare yet.
#[test]
fn an_attempt_prunes_and_hashes_the_block() {
    let runtime = tokio::runtime::Builder::new_current_thread().enable_time().build().unwrap();
    let outcome = runtime.block_on(async {
        let attempt = tokio::task::spawn_blocking(|| {
            let mut thread = MiningThread::new(0, false, None);
            let mut block = job(vec![transaction(1, 2000), transaction(2, 10)]);
            block.meta.block_pow_difficulty = [255; 32];
            thread.adopt(block);
            thread.thread_hashes = 99;
            let report = thread.attempt_at(2000);
            (thread, report)
        });
        tokio::time::timeout(std::time::Duration::from_secs(18), attempt).await
    });
    runtime.shutdown_background();
    let (thread, report) = match outcome {
        Ok(done) => done.unwrap(),
        Err(_) => {
            println!("the RandomX cache was not ready in time: nothing was compared");
            return;
        },
    };
    assert_eq!(report.unwrap(), Some(100));
    assert_eq!(thread.thread_hashes, 0);
    let submission = thread.submission(1).unwrap();
    let block = submission.block;
    assert_eq!(block.timestamp, 2000);
    assert_eq!(block.nonce, 8);
    assert_eq!(block.transactions.len(), 1);
    let ids = vec![snap_coin::crypto::Hash::new_from_buf([1; 32])];
    assert_eq!(block.meta.merkle_tree_root, MerkleTree::build(&ids).root_hash());
    assert_eq!(
        block.meta.hash.unwrap(),
        [
            57, 184, 50, 117, 177, 215, 49, 181, 62, 122, 127, 148, 211, 178, 54, 96, 26, 61, 53,
            72, 215, 7, 172, 206, 169, 176, 207, 44, 121, 230, 157, 205,
        ]
    );
}
