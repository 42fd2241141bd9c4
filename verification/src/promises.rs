//! What the operations of this crate come to, in plain terms. The contracts speak of the operations
//! through definitions; here it is said in numbers, fields and sequences of steps what those
//! definitions amount to, so that each statement can be read by itself.

use vstd::prelude::*;
use vstd::string::*;

use crate::bytes::be_value;
use crate::chain::{
    expired, ids, law_exactly_the_live_transactions_stay, live, models, Job, JobModel,
    JobTransaction, MineError, TransactionModel,
};
use crate::console::{draw_outcome, found_line, lagged_line, starting_line};
use crate::iteration::{next_step, FrontEnd, RoundAction, RoundEvent, RoundPhase};
use crate::mining::{
    attempt_outcome, found_text, lagged_text, poll_outcome, shutdown_text, JobPoll, MineStep,
    MiningThread, PollStep, StopReason, ThreadModel,
};
use crate::outside::{address_filter, hashing_bytes, merkle_root, randomx};
use crate::stats::StatEvent;
use crate::text::{base36, decimal, signed_decimal};

verus! {

// ---------------------------------------------------------------------------------------------
// Blocks.
// ---------------------------------------------------------------------------------------------

/// The value of a transaction has every field of it.
pub proof fn law_transactions_are_shown_whole(transaction: JobTransaction)
    ensures
        transaction@.inputs == transaction.inputs@,
        transaction@.outputs == transaction.outputs@,
        transaction@.transaction_id == transaction.transaction_id,
        transaction@.nonce == transaction.nonce,
        transaction@.timestamp == transaction.timestamp,
{
}

/// The value of a block has every field of it, and its transactions one for one.
pub proof fn law_blocks_are_shown_whole(job: Job)
    ensures
        job@.transactions.len() == job.transactions@.len(),
        forall|i: int|
            0 <= i < job.transactions@.len() ==> #[trigger] job@.transactions[i]
                == job.transactions@[i]@,
        job@.timestamp == job.timestamp,
        job@.nonce == job.nonce,
        job@.block_pow_difficulty == job.meta.block_pow_difficulty,
        job@.tx_pow_difficulty == job.meta.tx_pow_difficulty,
        job@.previous_block == job.meta.previous_block,
        job@.hash == job.meta.hash,
        job@.merkle_tree_root == job.meta.merkle_tree_root,
        job@.address_inclusion_filter == job.meta.address_inclusion_filter,
{
}

/// The values of transactions are those of each of them, in their order.
pub proof fn law_lists_are_shown_one_by_one(transactions: Seq<JobTransaction>)
    ensures
        models(transactions).len() == transactions.len(),
        forall|i: int|
            0 <= i < transactions.len() ==> #[trigger] models(transactions)[i]
                == transactions[i]@,
{
}

/// Bringing a block up to date goes through its transactions one by one: a transaction stays, in
/// its place behind the others that stay, unless it is stamped more than 360 seconds before `now`.
/// Nothing else about it, and nothing about the others, matters.
pub proof fn law_transactions_stay_for_360_seconds(
    job: JobModel,
    transaction: TransactionModel,
    now: u64,
)
    ensures
        (JobModel { transactions: Seq::empty(), ..job }).pruned(now).transactions
            == Seq::<TransactionModel>::empty(),
        ({
            let longer = (JobModel { transactions: job.transactions.push(transaction), ..job });
            longer.pruned(now).transactions == (if transaction.timestamp + 360 < now {
                job.pruned(now).transactions
            } else {
                job.pruned(now).transactions.push(transaction)
            })
        }),
        job.refreshed(now).0.transactions == job.pruned(now).transactions,
{
    let longer = job.transactions.push(transaction);
    reveal(Seq::filter);
    assert(longer.drop_last() =~= job.transactions);
    assert(Seq::<TransactionModel>::empty().filter(|t: TransactionModel| !expired(t, now))
        =~= Seq::<TransactionModel>::empty());
}

/// A block loses transactions exactly when one of them is stamped more than 360 seconds before
/// `now`.
pub proof fn law_old_transactions_are_lost(job: JobModel, now: u64)
    ensures
        job.loses_transactions(now) <==> exists|i: int|
            0 <= i < job.transactions.len() && (#[trigger] job.transactions[i]).timestamp + 360
                < now,
{
    let keep = |t: TransactionModel| !expired(t, now);
    let kept = live(job.transactions, now);
    job.transactions.lemma_filter_len(keep);
    if !job.loses_transactions(now) {
        lemma_nothing_lost(job.transactions, now);
        assert forall|i: int| 0 <= i < job.transactions.len() implies (
        #[trigger] job.transactions[i]).timestamp + 360 >= now by {
            job.transactions.lemma_filter_pred(keep, i);
        }
    } else if forall|i: int|
        0 <= i < job.transactions.len() ==> (#[trigger] job.transactions[i]).timestamp + 360
            >= now {
        lemma_all_stay(job.transactions, now);
    }
}

proof fn lemma_nothing_lost(transactions: Seq<TransactionModel>, now: u64)
    requires
        live(transactions, now).len() >= transactions.len(),
    ensures
        live(transactions, now) == transactions,
    decreases transactions.len(),
{
    let keep = |t: TransactionModel| !expired(t, now);
    reveal(Seq::filter);
    if transactions.len() > 0 {
        transactions.drop_last().lemma_filter_len(keep);
        lemma_nothing_lost(transactions.drop_last(), now);
        assert(transactions.drop_last().push(transactions.last()) =~= transactions);
    }
}

proof fn lemma_all_stay(transactions: Seq<TransactionModel>, now: u64)
    requires
        forall|i: int|
            0 <= i < transactions.len() ==> (#[trigger] transactions[i]).timestamp + 360 >= now,
    ensures
        live(transactions, now) == transactions,
    decreases transactions.len(),
{
    reveal(Seq::filter);
    if transactions.len() > 0 {
        let rest = transactions.drop_last();
        assert forall|i: int| 0 <= i < rest.len() implies (#[trigger] rest[i]).timestamp + 360
            >= now by {
            assert(rest[i] == transactions[i]);
        }
        lemma_all_stay(rest, now);
        assert(rest.push(transactions.last()) =~= transactions);
    }
}

/// When a block can be brought up to date, in numbers: every stamp is low enough to be judged and,
/// where a transaction is stamped more than 360 seconds before `now`, all the others have an id.
pub proof fn law_when_blocks_can_be_refreshed(job: JobModel, now: u64)
    ensures
        job.can_refresh(now) <==> {
            &&& forall|i: int|
                0 <= i < job.transactions.len() ==> (#[trigger] job.transactions[i]).timestamp
                    + 360 <= u64::MAX
            &&& (exists|i: int|
                0 <= i < job.transactions.len() && (#[trigger] job.transactions[i]).timestamp
                    + 360 < now) ==> forall|i: int|
                0 <= i < job.transactions.len() && (#[trigger] job.transactions[i]).timestamp
                    + 360 >= now ==> job.transactions[i].transaction_id is Some
        },
{
    law_old_transactions_are_lost(job, now);
    let keep = |t: TransactionModel| !expired(t, now);
    let kept = live(job.transactions, now);
    assert forall|i: int| 0 <= i < kept.len() implies exists|k: int|
        0 <= k < job.transactions.len() && job.transactions[k] == #[trigger] kept[i]
            && job.transactions[k].timestamp + 360 >= now by {
        assert(kept.contains(kept[i]));
        job.transactions.lemma_filter_contains_rev(keep, kept[i]);
        job.transactions.lemma_filter_pred(keep, i);
    }
    assert forall|i: int|
        0 <= i < job.transactions.len() && (#[trigger] job.transactions[i]).timestamp + 360
            >= now implies kept.contains(job.transactions[i]) by {
        job.transactions.lemma_filter_contains(keep, i);
    }
    assert(job.ages_fit() <==> forall|i: int|
        0 <= i < job.transactions.len() ==> (#[trigger] job.transactions[i]).timestamp + 360
            <= u64::MAX);
    if job.pruned(now).has_ids() {
        assert forall|i: int|
            0 <= i < job.transactions.len() && (#[trigger] job.transactions[i]).timestamp + 360
                >= now implies job.transactions[i].transaction_id is Some by {
            let k = choose|k: int| 0 <= k < kept.len() && kept[k] == job.transactions[i];
            assert(job.pruned(now).transactions[k].transaction_id is Some);
        }
    }
    if forall|i: int|
        0 <= i < job.transactions.len() && (#[trigger] job.transactions[i]).timestamp + 360
            >= now ==> job.transactions[i].transaction_id is Some {
        assert forall|i: int| 0 <= i < kept.len() implies #[trigger] kept[i].transaction_id
            is Some by {
            let k = choose|k: int|
                0 <= k < job.transactions.len() && job.transactions[k] == kept[i]
                    && job.transactions[k].timestamp + 360 >= now;
            assert(job.transactions[k].transaction_id is Some);
        }
        assert(job.pruned(now).has_ids());
    }
}

/// The Merkle root is taken over the id of every transaction, one for each, in their order.
pub proof fn law_ids_are_those_of_all_transactions(transactions: Seq<TransactionModel>)
    ensures
        ids(transactions).len() == transactions.len(),
        forall|k: int|
            0 <= k < transactions.len() ==> #[trigger] ids(transactions)[k]
                == transactions[k].transaction_id->0,
{
}

/// What a refresh does to a block beside dropping transactions. The stamp becomes `now`. If a
/// transaction is stamped more than 360 seconds before `now`, the Merkle root becomes that of the
/// list that has the id of every remaining transaction, one for each and in their order, and the
/// filter that of the remaining transactions; if none is, nothing else changes.
pub proof fn law_refreshed_blocks_commit_to_what_stays(
    job: JobModel,
    now: u64,
    list: Seq<[u8; 32]>,
)
    requires
        job.refreshed(now).1 is None,
        list.len() == job.refreshed(now).0.transactions.len(),
        forall|k: int|
            0 <= k < list.len() ==> (#[trigger] job.refreshed(
                now,
            ).0.transactions[k]).transaction_id == Some(list[k]),
    ensures
        ({
            let after = job.refreshed(now).0;
            let loses = exists|i: int|
                0 <= i < job.transactions.len() && (#[trigger] job.transactions[i]).timestamp
                    + 360 < now;
            &&& loses ==> after.merkle_tree_root == merkle_root(list)
            &&& loses ==> address_filter(after.transactions) is Ok
            &&& loses ==> address_filter(after.transactions)->Ok_0
                == after.address_inclusion_filter
            &&& !loses ==> after == (JobModel { timestamp: now, ..job })
            &&& after.timestamp == now
            &&& after.nonce == job.nonce
            &&& after.hash == job.hash
            &&& after.block_pow_difficulty == job.block_pow_difficulty
            &&& after.tx_pow_difficulty == job.tx_pow_difficulty
            &&& after.previous_block == job.previous_block
        }),
{
    let after = job.refreshed(now).0;
    law_old_transactions_are_lost(job, now);
    assert forall|k: int| 0 <= k < list.len() implies list[k] == #[trigger] ids(
        after.transactions,
    )[k] by {
        assert(after.transactions[k].transaction_id == Some(list[k]));
    }
    assert(list =~= ids(after.transactions));
    if !job.loses_transactions(now) {
        job.transactions.lemma_filter_len(|t: TransactionModel| !expired(t, now));
        lemma_nothing_lost(job.transactions, now);
        assert(after =~= (JobModel { timestamp: now, ..job }));
    }
}

/// An attempt brings the block up to date, puts the nonce into it, and attaches the hash of the
/// block as it then stands without a hash. It changes nothing else.
pub proof fn law_attempts_hash_the_refreshed_block(job: JobModel, now: u64, nonce: u64)
    requires
        job.attempted(now, nonce).1 is None,
    ensures
        ({
            let after = job.attempted(now, nonce).0;
            let fresh = job.refreshed(now).0;
            let bare = (JobModel { hash: None, ..after });
            &&& job.refreshed(now).1 is None
            &&& after.nonce == nonce
            &&& hashing_bytes(bare) is Ok
            &&& after.hash == Some(randomx(hashing_bytes(bare)->Ok_0))
            &&& (JobModel { nonce: fresh.nonce, hash: fresh.hash, ..after }) == fresh
        }),
{
    let after = job.attempted(now, nonce).0;
    let fresh = job.refreshed(now).0;
    assert(JobModel { hash: None, ..after } =~= (JobModel { nonce, ..fresh }).without_hash());
    assert(JobModel { nonce: fresh.nonce, hash: fresh.hash, ..after } =~= fresh);
}

// ---------------------------------------------------------------------------------------------
// Mining threads.
// ---------------------------------------------------------------------------------------------

/// The value of a thread has every field of it but what it has heard.
pub proof fn law_threads_are_shown_whole(thread: MiningThread)
    ensures
        thread@.thread_id == thread.thread_id,
        thread@.is_pool == thread.is_pool,
        thread@.pool_info == thread.pool_info,
        thread@.local_job_id == thread.local_job_id,
        thread@.thread_hashes == thread.thread_hashes,
        thread.current_block is None ==> thread@.current_block is None,
        thread.current_block matches Some(job) ==> thread@.current_block == Some(job@),
{
}

/// What an attempt at `now` does to a thread, in full. It takes place exactly when there is a job
/// that has a nonce left and can be brought up to date. Then the block is stamped `now`, has the
/// next nonce, holds exactly the transactions of the job that are stamped no more than 360 seconds
/// before `now`, and carries its own hash; one more hash is counted, and every hundredth is the
/// occasion to report a hundred. Nothing else of the thread changes.
pub proof fn law_what_an_attempt_does(
    before: ThreadModel,
    now: u64,
    after: ThreadModel,
    r: Option<Result<Option<u64>, MineError>>,
)
    requires
        attempt_outcome(before, now, after, r),
    ensures
        r is Some <==> before.current_block is Some && before.current_block->0.nonce < u64::MAX
            && before.current_block->0.can_refresh(now),
        r is None ==> after == before,
        after.thread_id == before.thread_id,
        after.is_pool == before.is_pool,
        after.pool_info == before.pool_info,
        after.local_job_id == before.local_job_id,
        r matches Some(Ok(report)) ==> {
            let job = before.current_block->0;
            let block = after.current_block->0;
            let bare = (JobModel { hash: None, ..block });
            &&& after.current_block is Some
            &&& block.timestamp == now
            &&& block.nonce == job.nonce + 1
            &&& block.transactions == job.refreshed(now).0.transactions
            &&& forall|t: TransactionModel| #[trigger]
                block.transactions.contains(t) <==> job.transactions.contains(t) && t.timestamp
                    + 360 >= now
            &&& block.hash == Some(randomx(hashing_bytes(bare)->Ok_0))
            &&& block.block_pow_difficulty == job.block_pow_difficulty
            &&& block.previous_block == job.previous_block
            &&& before.thread_hashes == 99 ==> report == Some(100u64) && after.thread_hashes == 0
            &&& before.thread_hashes < 99 ==> report is None && after.thread_hashes
                == before.thread_hashes + 1
        },
{
    if before.can_attempt(now) {
        let job = before.current_block->0;
        if job.attempted(now, (job.nonce + 1) as u64).1 is None {
            law_attempts_hash_the_refreshed_block(job, now, (job.nonce + 1) as u64);
            assert forall|t: TransactionModel| #[trigger]
                after.current_block->0.transactions.contains(t) <==> job.transactions.contains(t)
                    && t.timestamp + 360 >= now by {
                law_exactly_the_live_transactions_stay(job, now, t);
            }
        }
    }
}

/// What drawing a nonce at `now` does to a thread of the console, in full. It takes place exactly
/// when there is a job that can be brought up to date. Then the block is stamped `now`, has that
/// nonce, holds exactly the transactions of the job that are stamped no more than 360 seconds
/// before `now`, and carries its own hash. Nothing else of the thread changes.
pub proof fn law_what_a_draw_does(
    before: ThreadModel,
    now: u64,
    nonce: u64,
    after: ThreadModel,
    r: Option<Result<(), MineError>>,
)
    requires
        draw_outcome(before, now, nonce, after, r),
    ensures
        r is Some <==> before.current_block is Some && before.current_block->0.can_refresh(now),
        r is None ==> after == before,
        (ThreadModel { current_block: before.current_block, ..after }) == before,
        r matches Some(Ok(_)) ==> {
            let job = before.current_block->0;
            let block = after.current_block->0;
            let bare = (JobModel { hash: None, ..block });
            &&& after.current_block is Some
            &&& block.timestamp == now
            &&& block.nonce == nonce
            &&& block.transactions == job.refreshed(now).0.transactions
            &&& forall|t: TransactionModel| #[trigger]
                block.transactions.contains(t) <==> job.transactions.contains(t) && t.timestamp
                    + 360 >= now
            &&& block.hash == Some(randomx(hashing_bytes(bare)->Ok_0))
            &&& block.block_pow_difficulty == job.block_pow_difficulty
            &&& block.previous_block == job.previous_block
        },
{
    if before.can_draw(now) {
        let job = before.current_block->0;
        if job.attempted(now, nonce).1 is None {
            law_attempts_hash_the_refreshed_block(job, now, nonce);
            assert forall|t: TransactionModel| #[trigger]
                after.current_block->0.transactions.contains(t) <==> job.transactions.contains(t)
                    && t.timestamp + 360 >= now by {
                law_exactly_the_live_transactions_stay(job, now, t);
            }
        }
    }
}

/// What a thread does about what it found, in full. A job is taken with the given nonce and nothing
/// else of it changed, and counts one up; an empty channel makes the thread sleep for 5
/// milliseconds; lost jobs are reported with their number; a closed channel ends the thread.
pub proof fn law_what_a_poll_does<R>(
    before: ThreadModel,
    poll: JobPoll,
    nonce: u64,
    after: ThreadModel,
    step: PollStep<R>,
)
    requires
        poll_outcome(before, poll, nonce, after, step),
        before.local_job_id < u64::MAX,
    ensures
        poll matches JobPoll::Job(job) ==> {
            &&& after.local_job_id == before.local_job_id + 1
            &&& after.current_block is Some
            &&& after.current_block->0.nonce == nonce
            &&& (JobModel { nonce: job@.nonce, ..after.current_block->0 }) == job@
            &&& (ThreadModel {
                local_job_id: before.local_job_id,
                current_block: before.current_block,
                ..after
            }) == before
            &&& step is Ready
        },
        !(poll is Job) ==> after == before,
        poll is Empty ==> step == PollStep::<R>::Pause(5),
        poll matches JobPoll::Lagged(skipped) ==> {
            &&& step matches PollStep::Report(StatEvent::Event(message))
            &&& message@ == "Thread "@ + signed_decimal(before.thread_id + 1) + " lagged by "@
                + decimal(skipped as nat) + " jobs"@
        },
        poll is Closed ==> step is Closed,
{
    if let JobPoll::Job(job) = poll {
        assert(JobModel { nonce: job@.nonce, ..after.current_block->0 } =~= job@);
        assert(ThreadModel {
            local_job_id: before.local_job_id,
            current_block: before.current_block,
            ..after
        } =~= before);
    }
}

/// Taking a job counts one up and puts the job, unchanged, in the place of the one before. Nothing
/// else of the thread changes.
pub proof fn law_taking_a_job(thread: ThreadModel, job: JobModel)
    requires
        thread.local_job_id < u64::MAX,
    ensures
        thread.adopting(job).local_job_id == thread.local_job_id + 1,
        thread.adopting(job).current_block == Some(job),
        thread.adopting(job).thread_id == thread.thread_id,
        thread.adopting(job).is_pool == thread.is_pool,
        thread.adopting(job).pool_info == thread.pool_info,
        thread.adopting(job).thread_hashes == thread.thread_hashes,
{
}

/// A thread needs a job when it has none or fewer than were announced; it attempts its job when it
/// has taken as many as were announced, and sleeps for 10 milliseconds otherwise.
pub proof fn law_when_threads_work(thread: ThreadModel, global: u64)
    ensures
        thread.needs_job(global) <==> thread.current_block is None || global
            > thread.local_job_id,
        thread.mine_step(global) == (if global == thread.local_job_id {
            MineStep::Attempt
        } else {
            MineStep::Pause(10)
        }),
{
}

/// A hash is good when it is below the target as a number: the pool's target where the thread mines
/// for a pool, and the target in the block where it mines alone. A good hash is a submission when
/// the thread has taken as many jobs as were announced.
pub proof fn law_which_hashes_are_submitted(thread: ThreadModel, global: u64)
    requires
        thread.current_block is Some,
        thread.current_block->0.hash is Some,
        thread.is_pool ==> thread.pool_info is Some,
    ensures
        thread.has_target(),
        thread.is_pool ==> {
            &&& thread.qualifies() <==> be_value(thread.current_block->0.hash->0@) < be_value(
                thread.pool_info->0.pool_difficulty@,
            )
            &&& thread.submits(global) <==> thread.local_job_id == global && be_value(
                thread.current_block->0.hash->0@,
            ) < be_value(thread.pool_info->0.pool_difficulty@)
        },
        !thread.is_pool ==> {
            &&& thread.qualifies() <==> be_value(thread.current_block->0.hash->0@) < be_value(
                thread.current_block->0.block_pow_difficulty@,
            )
            &&& thread.submits(global) <==> thread.local_job_id == global && be_value(
                thread.current_block->0.hash->0@,
            ) < be_value(thread.current_block->0.block_pow_difficulty@)
        },
{
}

/// The messages of a thread, word for word.
pub proof fn law_messages_of_a_thread(thread_id: i32, is_pool: bool, hash: [u8; 32], skipped: u64)
    ensures
        lagged_text(thread_id, skipped) == "Thread "@ + signed_decimal(thread_id + 1)
            + " lagged by "@ + decimal(skipped as nat) + " jobs"@,
        found_text(thread_id, true, hash) == "Thread "@ + signed_decimal(thread_id + 1)
            + " found share: "@ + base36(be_value(hash@)),
        found_text(thread_id, false, hash) == "Thread "@ + signed_decimal(thread_id + 1)
            + " found block: "@ + base36(be_value(hash@)),
        shutdown_text(thread_id) == "Requested thread shutdown "@ + signed_decimal(
            thread_id as int,
        ),
        starting_line(thread_id) == "[THREAD "@ + signed_decimal(thread_id + 1) + "] "@
            + "Starting miner"@,
        lagged_line(thread_id, skipped) == "[THREAD "@ + signed_decimal(thread_id as int) + "] "@
            + "Warning: Lagged by "@ + decimal(skipped as nat) + " jobs, catching up..."@,
        found_line(thread_id, true, hash) == "[THREAD "@ + signed_decimal(thread_id as int) + "] "@
            + "Found share "@ + base36(be_value(hash@)),
        found_line(thread_id, false, hash) == "[THREAD "@ + signed_decimal(thread_id as int)
            + "] "@ + "Found block "@ + base36(be_value(hash@)),
{
}

// ---------------------------------------------------------------------------------------------
// Rounds of a mining thread.
// ---------------------------------------------------------------------------------------------

/// What a thread is asked to do from `phase` on while it is told these things, up to the end of the
/// round.
pub open spec fn asked(
    front: FrontEnd,
    thread: ThreadModel,
    phase: RoundPhase,
    told: Seq<RoundEvent>,
) -> Seq<RoundAction>
    decreases told.len(),
{
    if told.len() == 0 {
        Seq::empty()
    } else {
        let (next, action) = next_step(front, thread, phase, told[0]);
        if action is Finish || action is Stop {
            seq![action]
        } else {
            seq![action] + asked(front, thread, next, told.skip(1))
        }
    }
}

/// Whether each thing that is told is an answer to what was asked.
pub open spec fn answers(
    front: FrontEnd,
    thread: ThreadModel,
    phase: RoundPhase,
    told: Seq<RoundEvent>,
) -> bool
    decreases told.len(),
{
    told.len() == 0 || {
        &&& phase.expects(told[0])
        &&& answers(front, thread, next_step(front, thread, phase, told[0]).0, told.skip(1))
    }
}

/// The hand-ins among these actions.
pub open spec fn hand_ins(actions: Seq<RoundAction>) -> Seq<RoundAction> {
    actions.filter(|a: RoundAction| a is Submit)
}

proof fn lemma_hand_ins(action: RoundAction, rest: Seq<RoundAction>)
    ensures
        hand_ins(seq![action] + rest) == (if action is Submit {
            seq![action] + hand_ins(rest)
        } else {
            hand_ins(rest)
        }),
        hand_ins(Seq::empty()) == Seq::<RoundAction>::empty(),
        hand_ins(seq![action]) == (if action is Submit {
            seq![action]
        } else {
            Seq::empty()
        }),
{
    let keep = |a: RoundAction| a is Submit;
    Seq::filter_distributes_over_add(seq![action], rest, keep);
    reveal_with_fuel(Seq::filter, 2);
    assert(seq![action].drop_last() =~= Seq::<RoundAction>::empty());
    assert(seq![action].filter(keep) =~= (if action is Submit {
        seq![action]
    } else {
        Seq::empty()
    }));
    assert(Seq::<RoundAction>::empty() + hand_ins(rest) =~= hand_ins(rest));
}

/// A good hash is handed in, by either front end, for a pool and alone alike. Take a thread that
/// has just attempted its job and holds a hash below its target, and let it be told, to whatever it
/// asks until the round is over, that its job is still the current one: it asks exactly once to
/// hand the block in. If the hash is not below the target, it never does.
pub proof fn law_good_hashes_are_handed_in(
    front: FrontEnd,
    thread: ThreadModel,
    report: Option<u64>,
    told: Seq<RoundEvent>,
)
    requires
        thread.current_block is Some,
        thread.current_block->0.hash is Some,
        thread.is_pool ==> thread.pool_info is Some,
        front == FrontEnd::Console ==> report is None,
        told.len() > 0,
        told[0] == RoundEvent::Attempted(report),
        answers(front, thread, RoundPhase::Trying, told),
        forall|k: int|
            0 <= k < told.len() && told[k] is JobId ==> #[trigger] told[k] == RoundEvent::JobId(
                thread.local_job_id,
            ),
        asked(front, thread, RoundPhase::Trying, told).last() is Finish,
    ensures
        ({
            let target = if thread.is_pool {
                thread.pool_info->0.pool_difficulty
            } else {
                thread.current_block->0.block_pow_difficulty
            };
            hand_ins(asked(front, thread, RoundPhase::Trying, told)) == (if be_value(
                thread.current_block->0.hash->0@,
            ) < be_value(target@) {
                seq![RoundAction::Submit(thread.local_job_id)]
            } else {
                Seq::empty()
            })
        }),
{
    lemma_hand_ins_from(front, thread, RoundPhase::Trying, told);
}

/// Whether a hand-in of a good hash is still to come.
spec fn to_come(front: FrontEnd, phase: RoundPhase) -> bool {
    match front {
        FrontEnd::Dashboard => phase is Trying || phase is Counting || phase is Reporting || phase
            is Claiming,
        FrontEnd::Console => phase is Trying || phase is Claiming,
    }
}

proof fn lemma_hand_ins_from(
    front: FrontEnd,
    thread: ThreadModel,
    phase: RoundPhase,
    told: Seq<RoundEvent>,
)
    requires
        told.len() > 0,
        answers(front, thread, phase, told),
        forall|k: int|
            0 <= k < told.len() && told[k] is JobId ==> #[trigger] told[k] == RoundEvent::JobId(
                thread.local_job_id,
            ),
        asked(front, thread, phase, told).last() is Finish,
        phase is Trying || phase is Counting || phase is Reporting || phase is Claiming || phase
            is Submitting,
        front == FrontEnd::Console && phase is Counting ==> phase == RoundPhase::Counting(None),
        front == FrontEnd::Console ==> !(phase is Reporting),
        phase is Claiming ==> thread.qualifies(),
    ensures
        hand_ins(asked(front, thread, phase, told)) == (if to_come(front, phase)
            && thread.qualifies() {
            seq![RoundAction::Submit(thread.local_job_id)]
        } else {
            Seq::empty()
        }),
    decreases told.len(),
{
    let (next, action) = next_step(front, thread, phase, told[0]);
    let rest = asked(front, thread, next, told.skip(1));
    lemma_hand_ins(action, rest);
    if !(action is Finish || action is Stop) {
        if told.skip(1).len() == 0 {
            assert(rest =~= Seq::<RoundAction>::empty());
            assert((seq![action] + rest).last() == action);
            assert(false);
        }
        assert forall|k: int| 0 <= k < told.skip(1).len() && told.skip(1)[k] is JobId implies
            #[trigger] told.skip(1)[k] == RoundEvent::JobId(thread.local_job_id) by {
            assert(told[k + 1] == told.skip(1)[k]);
        }
        assert(rest.len() > 0) by {
            reveal_with_fuel(asked, 2);
        }
        assert((seq![action] + rest).last() == rest.last());
        lemma_hand_ins_from(front, thread, next, told.skip(1));
        if action is Submit {
            assert(seq![action] + Seq::<RoundAction>::empty() =~= seq![action]);
        }
    }
}

/// What a round waits for, phase by phase, and when a target is needed to go on: only where a hash
/// may be held against it.
pub proof fn law_what_rounds_wait_for(front: FrontEnd, report: Option<u64>, event: RoundEvent)
    ensures
        RoundPhase::Begin.expects(event) <==> event is Done,
        RoundPhase::Opening.expects(event) <==> event is JobId,
        RoundPhase::Waiting.expects(event) <==> event is Shutdown,
        RoundPhase::Looking.expects(event) <==> event is Taken || event is Missed || event is Closed,
        RoundPhase::Syncing.expects(event) <==> event is JobId,
        RoundPhase::Resting.expects(event) <==> event is Done,
        RoundPhase::Trying.expects(event) <==> event is Attempted,
        RoundPhase::Counting(report).expects(event) <==> event is Done,
        RoundPhase::Reporting.expects(event) <==> event is Done,
        RoundPhase::Claiming.expects(event) <==> event is JobId,
        RoundPhase::Submitting.expects(event) <==> event is Done,
        !RoundPhase::Begin.judges(front),
        !RoundPhase::Opening.judges(front),
        !RoundPhase::Waiting.judges(front),
        !RoundPhase::Looking.judges(front),
        !RoundPhase::Syncing.judges(front),
        !RoundPhase::Resting.judges(front),
        !RoundPhase::Submitting.judges(front),
{
}

/// The steps of a round up to the attempt. A thread that has a job and has taken as many as were
/// announced attempts it; if by then more or fewer are announced, it sleeps for 10 milliseconds and
/// the round is over.
pub proof fn law_current_jobs_are_attempted(
    front: FrontEnd,
    thread: ThreadModel,
    first: u64,
    second: u64,
)
    requires
        thread.current_block is Some,
        first <= thread.local_job_id,
    ensures
        second == thread.local_job_id ==> asked(
            front,
            thread,
            RoundPhase::Begin,
            seq![RoundEvent::Done, RoundEvent::JobId(first), RoundEvent::JobId(second)],
        ) == seq![RoundAction::ReadJobId, RoundAction::ReadJobId, RoundAction::Attempt],
        second != thread.local_job_id ==> asked(
            front,
            thread,
            RoundPhase::Begin,
            seq![
                RoundEvent::Done,
                RoundEvent::JobId(first),
                RoundEvent::JobId(second),
                RoundEvent::Done,
            ],
        ) == seq![
            RoundAction::ReadJobId,
            RoundAction::ReadJobId,
            RoundAction::Pause(10),
            RoundAction::Finish,
        ],
{
    let short = seq![RoundEvent::Done, RoundEvent::JobId(first), RoundEvent::JobId(second)];
    let long = short.push(RoundEvent::Done);
    assert(long =~= seq![
        RoundEvent::Done,
        RoundEvent::JobId(first),
        RoundEvent::JobId(second),
        RoundEvent::Done,
    ]);
    reveal_with_fuel(asked, 5);
    assert(short.skip(1).skip(1).skip(1) =~= Seq::<RoundEvent>::empty());
    assert(asked(front, thread, RoundPhase::Begin, short) =~= seq![
        RoundAction::ReadJobId,
        RoundAction::ReadJobId,
        next_step(front, thread, RoundPhase::Syncing, RoundEvent::JobId(second)).1,
    ]);
    if second != thread.local_job_id {
        assert(asked(front, thread, RoundPhase::Begin, long) =~= seq![
            RoundAction::ReadJobId,
            RoundAction::ReadJobId,
            RoundAction::Pause(10),
            RoundAction::Finish,
        ]);
    }
}

/// A thread that has no job, or has taken fewer than were announced, looks for one: on the
/// dashboard after it has read that the miner does not shut down, and it stops if the miner does;
/// on the console at once. It goes on looking until it takes a job, and then reads the number of
/// announced jobs; and it stops when no job will come any more.
pub proof fn law_threads_that_are_behind_look_for_a_job(
    thread: ThreadModel,
    global: u64,
    shutdown: bool,
)
    requires
        thread.current_block is None || thread.local_job_id < global,
    ensures
        asked(
            FrontEnd::Dashboard,
            thread,
            RoundPhase::Begin,
            seq![RoundEvent::Done, RoundEvent::JobId(global), RoundEvent::Shutdown(shutdown)],
        ) == seq![
            RoundAction::ReadJobId,
            RoundAction::ReadShutdown,
            if shutdown {
                RoundAction::Stop(StopReason::Shutdown)
            } else {
                RoundAction::Look
            },
        ],
        asked(
            FrontEnd::Console,
            thread,
            RoundPhase::Begin,
            seq![RoundEvent::Done, RoundEvent::JobId(global)],
        ) == seq![RoundAction::ReadJobId, RoundAction::Look],
{
    let told = seq![RoundEvent::Done, RoundEvent::JobId(global), RoundEvent::Shutdown(shutdown)];
    let brief = seq![RoundEvent::Done, RoundEvent::JobId(global)];
    reveal_with_fuel(asked, 4);
    assert(told.skip(1).skip(1).skip(1) =~= Seq::<RoundEvent>::empty());
    assert(brief.skip(1).skip(1) =~= Seq::<RoundEvent>::empty());
    assert(asked(FrontEnd::Dashboard, thread, RoundPhase::Begin, told) =~= seq![
        RoundAction::ReadJobId,
        RoundAction::ReadShutdown,
        if shutdown {
            RoundAction::Stop(StopReason::Shutdown)
        } else {
            RoundAction::Look
        },
    ]);
    assert(asked(FrontEnd::Console, thread, RoundPhase::Begin, brief) =~= seq![
        RoundAction::ReadJobId,
        RoundAction::Look,
    ]);
}

/// What follows a look for a job: a job that was taken leads to another reading of the number of
/// announced jobs and, if the thread is in step then, to an attempt; a miss leads to another look;
/// and the end of all jobs stops the thread.
pub proof fn law_after_a_look(front: FrontEnd, thread: ThreadModel)
    ensures
        asked(
            front,
            thread,
            RoundPhase::Looking,
            seq![RoundEvent::Taken, RoundEvent::JobId(thread.local_job_id)],
        ) == seq![RoundAction::ReadJobId, RoundAction::Attempt],
        asked(front, thread, RoundPhase::Looking, seq![RoundEvent::Closed]) == seq![
            RoundAction::Stop(StopReason::ChannelClosed),
        ],
        asked(
            FrontEnd::Dashboard,
            thread,
            RoundPhase::Looking,
            seq![RoundEvent::Missed, RoundEvent::Shutdown(false)],
        ) == seq![RoundAction::ReadShutdown, RoundAction::Look],
        asked(FrontEnd::Console, thread, RoundPhase::Looking, seq![RoundEvent::Missed]) == seq![
            RoundAction::Look,
        ],
{
    let taken = seq![RoundEvent::Taken, RoundEvent::JobId(thread.local_job_id)];
    let missed = seq![RoundEvent::Missed, RoundEvent::Shutdown(false)];
    let brief = seq![RoundEvent::Missed];
    reveal_with_fuel(asked, 3);
    assert(taken.skip(1).skip(1) =~= Seq::<RoundEvent>::empty());
    assert(missed.skip(1).skip(1) =~= Seq::<RoundEvent>::empty());
    assert(brief.skip(1) =~= Seq::<RoundEvent>::empty());
    assert(asked(front, thread, RoundPhase::Looking, taken) =~= seq![
        RoundAction::ReadJobId,
        RoundAction::Attempt,
    ]);
    assert(asked(FrontEnd::Dashboard, thread, RoundPhase::Looking, missed) =~= seq![
        RoundAction::ReadShutdown,
        RoundAction::Look,
    ]);
    assert(asked(FrontEnd::Console, thread, RoundPhase::Looking, brief) =~= seq![
        RoundAction::Look,
    ]);
}

/// What follows an attempt on the dashboard: the hash is counted; if a report is due, that many
/// hashes are reported; and if the hash is good and the job still the current one, the block is
/// handed in. Then the round is over.
pub proof fn law_after_an_attempt_on_the_dashboard(
    thread: ThreadModel,
    report: Option<u64>,
    global: u64,
)
    requires
        thread.current_block is Some,
        thread.current_block->0.hash is Some,
        thread.is_pool ==> thread.pool_info is Some,
    ensures
        ({
            let target = if thread.is_pool {
                thread.pool_info->0.pool_difficulty
            } else {
                thread.current_block->0.block_pow_difficulty
            };
            let good = be_value(thread.current_block->0.hash->0@) < be_value(target@);
            let judged = if good {
                seq![RoundEvent::JobId(global), RoundEvent::Done]
            } else {
                Seq::empty()
            };
            let verdict = if !good {
                seq![RoundAction::Finish]
            } else if global == thread.local_job_id {
                seq![RoundAction::ReadJobId, RoundAction::Submit(global), RoundAction::Finish]
            } else {
                seq![RoundAction::ReadJobId, RoundAction::Finish]
            };
            asked(
                FrontEnd::Dashboard,
                thread,
                RoundPhase::Trying,
                (match report {
                    Some(_) => seq![
                        RoundEvent::Attempted(report),
                        RoundEvent::Done,
                        RoundEvent::Done,
                    ],
                    None => seq![RoundEvent::Attempted(report), RoundEvent::Done],
                }) + judged,
            ) == (match report {
                Some(hashes) => seq![RoundAction::Count, RoundAction::Report(hashes)],
                None => seq![RoundAction::Count],
            }) + verdict
        }),
{
    let front = FrontEnd::Dashboard;
    let good = thread.qualifies();
    let judged = if good {
        seq![RoundEvent::JobId(global), RoundEvent::Done]
    } else {
        Seq::empty()
    };
    let start = match report {
        Some(_) => seq![RoundEvent::Attempted(report), RoundEvent::Done, RoundEvent::Done],
        None => seq![RoundEvent::Attempted(report), RoundEvent::Done],
    };
    let told = start + judged;
    reveal_with_fuel(asked, 7);
    let acts = asked(front, thread, RoundPhase::Trying, told);
    match report {
        Some(hashes) => {
            if !good {
                assert(acts =~= seq![
                    RoundAction::Count,
                    RoundAction::Report(hashes),
                    RoundAction::Finish,
                ]);
            } else if global == thread.local_job_id {
                assert(acts =~= seq![
                    RoundAction::Count,
                    RoundAction::Report(hashes),
                    RoundAction::ReadJobId,
                    RoundAction::Submit(global),
                    RoundAction::Finish,
                ]);
            } else {
                assert(acts =~= seq![
                    RoundAction::Count,
                    RoundAction::Report(hashes),
                    RoundAction::ReadJobId,
                    RoundAction::Finish,
                ]);
            }
        },
        None => {
            if !good {
                assert(acts =~= seq![RoundAction::Count, RoundAction::Finish]);
            } else if global == thread.local_job_id {
                assert(acts =~= seq![
                    RoundAction::Count,
                    RoundAction::ReadJobId,
                    RoundAction::Submit(global),
                    RoundAction::Finish,
                ]);
            } else {
                assert(acts =~= seq![
                    RoundAction::Count,
                    RoundAction::ReadJobId,
                    RoundAction::Finish,
                ]);
            }
        },
    }
}

/// What follows an attempt on the console: if the hash is good and the job still the current one,
/// the block is handed in; and in any case the hash is counted and the round is over.
pub proof fn law_after_an_attempt_on_the_console(thread: ThreadModel, global: u64)
    requires
        thread.current_block is Some,
        thread.current_block->0.hash is Some,
        thread.is_pool ==> thread.pool_info is Some,
    ensures
        ({
            let target = if thread.is_pool {
                thread.pool_info->0.pool_difficulty
            } else {
                thread.current_block->0.block_pow_difficulty
            };
            let good = be_value(thread.current_block->0.hash->0@) < be_value(target@);
            let current = global == thread.local_job_id;
            asked(
                FrontEnd::Console,
                thread,
                RoundPhase::Trying,
                if !good {
                    seq![RoundEvent::Attempted(None), RoundEvent::Done]
                } else if current {
                    seq![
                        RoundEvent::Attempted(None),
                        RoundEvent::JobId(global),
                        RoundEvent::Done,
                        RoundEvent::Done,
                    ]
                } else {
                    seq![
                        RoundEvent::Attempted(None),
                        RoundEvent::JobId(global),
                        RoundEvent::Done,
                    ]
                },
            ) == (if !good {
                seq![RoundAction::Count, RoundAction::Finish]
            } else if current {
                seq![
                    RoundAction::ReadJobId,
                    RoundAction::Submit(global),
                    RoundAction::Count,
                    RoundAction::Finish,
                ]
            } else {
                seq![RoundAction::ReadJobId, RoundAction::Count, RoundAction::Finish]
            })
        }),
{
    let front = FrontEnd::Console;
    reveal_with_fuel(asked, 6);
    if !thread.qualifies() {
        let told = seq![RoundEvent::Attempted(None), RoundEvent::Done];
        assert(asked(front, thread, RoundPhase::Trying, told) =~= seq![
            RoundAction::Count,
            RoundAction::Finish,
        ]);
    } else if global == thread.local_job_id {
        let told = seq![
            RoundEvent::Attempted(None),
            RoundEvent::JobId(global),
            RoundEvent::Done,
            RoundEvent::Done,
        ];
        assert(asked(front, thread, RoundPhase::Trying, told) =~= seq![
            RoundAction::ReadJobId,
            RoundAction::Submit(global),
            RoundAction::Count,
            RoundAction::Finish,
        ]);
    } else {
        let told = seq![
            RoundEvent::Attempted(None),
            RoundEvent::JobId(global),
            RoundEvent::Done,
        ];
        assert(asked(front, thread, RoundPhase::Trying, told) =~= seq![
            RoundAction::ReadJobId,
            RoundAction::Count,
            RoundAction::Finish,
        ]);
    }
}

} // verus!
