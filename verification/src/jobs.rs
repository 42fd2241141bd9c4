//! Where jobs come from: which chain events make one, what goes into it, and how it is announced.

use vstd::prelude::*;
use vstd::string::*;

use crate::chain::{models, Job, JobModel, JobTransaction, TransactionModel};
use crate::mining::ThreadModel;
use crate::outside::{
    clock_seconds, expiration_time, max_transactions_per_block, BLOCK_CAPACITY, EXPIRATION,
    Heard, LATEST_SECOND,
};
use crate::stats::StatEvent;

verus! {

/// A waiting transaction is put into a block only if more than this many seconds are left before it
/// expires.
pub const MEMPOOL_BUFFER: u64 = 5;

/// Something that happened to the chain.
#[derive(Debug)]
pub enum ChainUpdate {
    /// A block to work on, or one that was added.
    Block(Job),
    /// A transaction was added to the mempool.
    Transaction,
    /// A transaction left the mempool because it was too old.
    TransactionExpiration,
}

/// How a chain event is turned into a job.
#[derive(Debug)]
pub enum RefreshPlan {
    /// It is not.
    Nothing,
    /// The event brought the job along.
    Publish(Job),
    /// A block has to be built from the mempool.
    Build,
}

/// What happens at the latch: someone asks to refresh, or a refresh ends.
pub enum LatchStep {
    Enter,
    Leave,
}

/// Whether a step leaves the latch closed.
pub open spec fn closes(step: LatchStep) -> bool {
    step is Enter
}

/// Whether a refresh may run, by whether the latch is closed.
pub open spec fn admits(refreshing: bool) -> bool {
    !refreshing
}

/// Lets one refresh run at a time.
#[derive(Debug, Clone, Copy, PartialEq, Eq, Structural)]
pub struct RefreshLatch {
    pub refreshing: bool,
}

impl RefreshLatch {
    /// A latch that no refresh has entered.
    pub fn new() -> (r: RefreshLatch)
        ensures
            !r.refreshing,
    {
        RefreshLatch { refreshing: false }
    }

    /// Asks to run a refresh. It may run if none is running; the latch is closed in either case.
    pub fn enter(&mut self) -> (admitted: bool)
        ensures
            admitted == admits(old(self).refreshing),
            final(self).refreshing == closes(LatchStep::Enter),
    {
        let admitted: bool = !self.refreshing;
        self.refreshing = true;
        admitted
    }

    /// Says that the refresh that was running is over.
    pub fn leave(&mut self)
        ensures
            final(self).refreshing == closes(LatchStep::Leave),
    {
        self.refreshing = false;
    }
}

/// Whether the latch is closed after these steps.
pub open spec fn closed_after(steps: Seq<LatchStep>) -> bool {
    steps.len() > 0 && closes(steps.last())
}

/// How many refreshes are running after these steps: those that were admitted, less those that
/// ended.
pub open spec fn running_after(steps: Seq<LatchStep>) -> int
    decreases steps.len(),
{
    if steps.len() == 0 {
        0
    } else {
        let before = steps.drop_last();
        match steps.last() {
            LatchStep::Enter => running_after(before) + if admits(closed_after(before)) {
                1int
            } else {
                0
            },
            LatchStep::Leave => running_after(before) - 1,
        }
    }
}

/// Whether a refresh was running at each step that ends one.
pub open spec fn leaves_are_earned(steps: Seq<LatchStep>) -> bool
    decreases steps.len(),
{
    steps.len() == 0 || {
        &&& leaves_are_earned(steps.drop_last())
        &&& steps.last() is Leave ==> running_after(steps.drop_last()) > 0
    }
}

/// However requests and ends follow each other, at most one refresh is running, and the latch is
/// closed exactly while one is.
pub proof fn law_one_refresh_at_a_time(steps: Seq<LatchStep>)
    requires
        leaves_are_earned(steps),
    ensures
        0 <= running_after(steps) <= 1,
        closed_after(steps) <==> running_after(steps) == 1,
    decreases steps.len(),
{
    if steps.len() > 0 {
        law_one_refresh_at_a_time(steps.drop_last());
    }
}

/// Whether a job is made before any chain event came: a pool sends the first job by itself.
pub fn refreshes_at_start(is_pool: bool) -> (r: bool)
    ensures
        r == !is_pool,
{
    !is_pool
}

/// How an event, or the start of the miner where there is none, is turned into a job. A pool sends
/// its jobs as blocks, and nothing else that it sends makes one; alone, any event does.
pub open spec fn plan(is_pool: bool, event: Option<ChainUpdate>) -> RefreshPlan {
    if !is_pool {
        RefreshPlan::Build
    } else {
        match event {
            Some(ChainUpdate::Block(job)) => RefreshPlan::Publish(job),
            _ => RefreshPlan::Nothing,
        }
    }
}

/// How an event, or the start of the miner where there is none, is turned into a job.
pub fn plan_refresh(is_pool: bool, event: Option<ChainUpdate>) -> (r: RefreshPlan)
    ensures
        r == plan(is_pool, event),
{
    if !is_pool {
        return RefreshPlan::Build;
    }
    match event {
        Some(ChainUpdate::Block(job)) => RefreshPlan::Publish(job),
        _ => RefreshPlan::Nothing,
    }
}

/// The number of the job that is announced when `announced` jobs were announced before.
pub fn next_job_id(announced: u64) -> (r: u64)
    requires
        announced < u64::MAX,
    ensures
        r == announced + 1,
{
    announced + 1
}

/// How far a refresh has come.
#[derive(Debug)]
pub enum RefreshPhase {
    /// A block is being built.
    Building,
    /// The number of announced jobs is being raised for this job.
    Raising(Job),
    /// This job is being announced.
    Announcing(Job),
    /// The job is on its way to the threads.
    Sending,
    /// Nothing is left to do.
    Ended,
}

/// What a refresh has to do next.
#[derive(Debug)]
pub enum RefreshAction {
    /// Build a block from the mempool.
    Build,
    /// Raise the number of announced jobs by one.
    Raise,
    /// Announce that there is a job with this number.
    Announce(u64),
    /// Send this job to the threads.
    Send(Job),
    /// Nothing.
    End,
}

/// That an action was carried out, and what came of it.
#[derive(Debug)]
pub enum RefreshEvent {
    /// The block that was built.
    Built(Job),
    /// How many jobs had been announced before the number was raised.
    Raised(u64),
    /// The job was announced.
    Announced,
    /// The job was sent.
    Sent,
}

/// How a refresh begins for an event, or for the start of the miner where there is none.
pub open spec fn first_action(is_pool: bool, event: Option<ChainUpdate>) -> (
    RefreshPhase,
    RefreshAction,
) {
    match plan(is_pool, event) {
        RefreshPlan::Nothing => (RefreshPhase::Ended, RefreshAction::End),
        RefreshPlan::Publish(job) => (RefreshPhase::Raising(job), RefreshAction::Raise),
        RefreshPlan::Build => (RefreshPhase::Building, RefreshAction::Build),
    }
}

/// Whether `event` is what the refresh waits for.
pub open spec fn expects(phase: RefreshPhase, event: RefreshEvent) -> bool {
    match phase {
        RefreshPhase::Building => event is Built,
        RefreshPhase::Raising(_) => event matches RefreshEvent::Raised(before) && before
            < u64::MAX,
        RefreshPhase::Announcing(_) => event is Announced,
        RefreshPhase::Sending => event is Sent,
        RefreshPhase::Ended => false,
    }
}

/// How a refresh goes on after an event that it waited for.
pub open spec fn next_action(phase: RefreshPhase, event: RefreshEvent) -> (
    RefreshPhase,
    RefreshAction,
) {
    match (phase, event) {
        (RefreshPhase::Building, RefreshEvent::Built(job)) => (
            RefreshPhase::Raising(job),
            RefreshAction::Raise,
        ),
        (RefreshPhase::Raising(job), RefreshEvent::Raised(before)) => (
            RefreshPhase::Announcing(job),
            RefreshAction::Announce((before + 1) as u64),
        ),
        (RefreshPhase::Announcing(job), _) => (RefreshPhase::Sending, RefreshAction::Send(job)),
        _ => (RefreshPhase::Ended, RefreshAction::End),
    }
}

impl RefreshPhase {
    /// Begins a refresh for an event, or for the start of the miner where there is none.
    pub fn begin(is_pool: bool, event: Option<ChainUpdate>) -> (r: (RefreshPhase, RefreshAction))
        ensures
            r == first_action(is_pool, event),
    {
        match plan_refresh(is_pool, event) {
            RefreshPlan::Nothing => (RefreshPhase::Ended, RefreshAction::End),
            RefreshPlan::Publish(job) => (RefreshPhase::Raising(job), RefreshAction::Raise),
            RefreshPlan::Build => (RefreshPhase::Building, RefreshAction::Build),
        }
    }

    /// Goes on with a refresh after what it asked for was done.
    pub fn advance(self, event: RefreshEvent) -> (r: (RefreshPhase, RefreshAction))
        requires
            expects(self, event),
        ensures
            r == next_action(self, event),
    {
        match (self, event) {
            (RefreshPhase::Building, RefreshEvent::Built(job)) => (
                RefreshPhase::Raising(job),
                RefreshAction::Raise,
            ),
            (RefreshPhase::Raising(job), RefreshEvent::Raised(before)) => (
                RefreshPhase::Announcing(job),
                RefreshAction::Announce(next_job_id(before)),
            ),
            (RefreshPhase::Announcing(job), _) => (
                RefreshPhase::Sending,
                RefreshAction::Send(job),
            ),
            _ => (RefreshPhase::Ended, RefreshAction::End),
        }
    }
}

/// How many actions a refresh asks for before it ends, the present one among them.
pub open spec fn actions_left(phase: RefreshPhase) -> nat {
    match phase {
        RefreshPhase::Building => 4,
        RefreshPhase::Raising(_) => 3,
        RefreshPhase::Announcing(_) => 2,
        RefreshPhase::Sending => 1,
        RefreshPhase::Ended => 0,
    }
}

/// A job that reached the threads, with what had happened by then.
#[verifier::ext_equal]
pub struct Arrival {
    pub job: Job,
    /// The number of announced jobs that a thread could read.
    pub job_id: u64,
    /// How many jobs had been announced.
    pub announcements: nat,
}

/// What refreshes leave behind.
#[verifier::ext_equal]
pub struct JobBoard {
    /// The number of announced jobs.
    pub job_id: u64,
    /// The numbers that were announced, in their order.
    pub announced: Seq<u64>,
    /// The jobs that reached the threads, in their order.
    pub arrived: Seq<Arrival>,
}

/// One refresh, and how what it asks for turns out.
pub struct RefreshRun {
    pub is_pool: bool,
    pub event: Option<ChainUpdate>,
    /// The block that is built, unless building it fails.
    pub built: Option<Job>,
    /// Whether any thread is there to take the job.
    pub delivered: bool,
}

impl JobBoard {
    /// After an action was carried out.
    pub open spec fn after_action(self, action: RefreshAction, delivered: bool) -> JobBoard {
        match action {
            RefreshAction::Raise => JobBoard { job_id: (self.job_id + 1) as u64, ..self },
            RefreshAction::Announce(job_id) => JobBoard {
                announced: self.announced.push(job_id),
                ..self
            },
            RefreshAction::Send(job) => if delivered {
                let arrival = Arrival {
                    job,
                    job_id: self.job_id,
                    announcements: self.announced.len(),
                };
                JobBoard { arrived: self.arrived.push(arrival), ..self }
            } else {
                self
            },
            _ => self,
        }
    }

    /// What carrying out an action tells the refresh. Nothing where it fails, which ends the
    /// refresh.
    pub open spec fn answer(self, action: RefreshAction, run: RefreshRun) -> Option<RefreshEvent> {
        match action {
            RefreshAction::Build => match run.built {
                Some(job) => Some(RefreshEvent::Built(job)),
                None => None,
            },
            RefreshAction::Raise => Some(RefreshEvent::Raised(self.job_id)),
            RefreshAction::Announce(_) => Some(RefreshEvent::Announced),
            RefreshAction::Send(_) => if run.delivered {
                Some(RefreshEvent::Sent)
            } else {
                None
            },
            RefreshAction::End => None,
        }
    }

    /// After the rest of a refresh that has come to `phase` and asks for `action`.
    pub open spec fn after_actions(
        self,
        phase: RefreshPhase,
        action: RefreshAction,
        run: RefreshRun,
    ) -> JobBoard
        decreases actions_left(phase),
    {
        if phase is Ended {
            self
        } else {
            let done = self.after_action(action, run.delivered);
            match self.answer(action, run) {
                Some(event) => {
                    let (later, next) = next_action(phase, event);
                    done.after_actions(later, next, run)
                },
                None => done,
            }
        }
    }

    /// After a whole refresh.
    pub open spec fn after_refresh(self, run: RefreshRun) -> JobBoard {
        let (phase, action) = first_action(run.is_pool, run.event);
        self.after_actions(phase, action, run)
    }

    /// After these refreshes, one after the other.
    pub open spec fn after_refreshes(self, runs: Seq<RefreshRun>) -> JobBoard
        decreases runs.len(),
    {
        if runs.len() == 0 {
            self
        } else {
            self.after_refreshes(runs.drop_last()).after_refresh(runs.last())
        }
    }
}

/// The job that a refresh makes, if it makes one.
pub open spec fn job_of(run: RefreshRun) -> Option<Job> {
    match plan(run.is_pool, run.event) {
        RefreshPlan::Nothing => None,
        RefreshPlan::Publish(job) => Some(job),
        RefreshPlan::Build => run.built,
    }
}

/// A refresh that makes a job raises the number of announced jobs, announces that number, and only
/// then sends the job; a refresh that makes none leaves everything as it was.
pub proof fn law_jobs_are_announced_before_they_are_sent(board: JobBoard, run: RefreshRun)
    requires
        job_of(run) is Some ==> board.job_id < u64::MAX,
    ensures
        board.after_refresh(run) == (match job_of(run) {
            None => board,
            Some(job) => JobBoard {
                job_id: (board.job_id + 1) as u64,
                announced: board.announced.push((board.job_id + 1) as u64),
                arrived: if run.delivered {
                    board.arrived.push(
                        Arrival {
                            job,
                            job_id: (board.job_id + 1) as u64,
                            announcements: board.announced.len() + 1,
                        },
                    )
                } else {
                    board.arrived
                },
            },
        }),
{
    reveal_with_fuel(JobBoard::after_actions, 6);
}

/// How many jobs these refreshes make.
pub open spec fn jobs_made(runs: Seq<RefreshRun>) -> nat
    decreases runs.len(),
{
    if runs.len() == 0 {
        0
    } else {
        jobs_made(runs.drop_last()) + if job_of(runs.last()) is Some {
            1nat
        } else {
            0
        }
    }
}

/// However many refreshes run, there is one announcement for each job that they make, and the
/// announced numbers count up by one from where they began: they are pairwise different and are exactly those up to the number of announced jobs. Whoever gets
/// the n-th job can already read a number that counts n jobs at least, and that number has been
/// announced.
pub proof fn law_announced_numbers_count_up(start: u64, runs: Seq<RefreshRun>)
    requires
        start + jobs_made(runs) <= u64::MAX,
    ensures
        ({
            let board = (JobBoard {
                job_id: start,
                announced: Seq::empty(),
                arrived: Seq::empty(),
            }).after_refreshes(runs);
            &&& board.job_id == start + jobs_made(runs)
            &&& board.announced.len() == board.job_id - start
            &&& forall|i: int|
                0 <= i < board.announced.len() ==> #[trigger] board.announced[i] == start + 1 + i
            &&& board.announced.no_duplicates()
            &&& board.arrived.len() <= board.announced.len()
            &&& forall|n: int|
                0 <= n < board.arrived.len() ==> {
                    &&& start + n + 1 <= #[trigger] board.arrived[n].job_id <= board.job_id
                    &&& board.arrived[n].announcements == board.arrived[n].job_id - start
                }
        }),
    decreases runs.len(),
{
    if runs.len() > 0 {
        law_announced_numbers_count_up(start, runs.drop_last());
        let before = (JobBoard {
            job_id: start,
            announced: Seq::empty(),
            arrived: Seq::empty(),
        }).after_refreshes(runs.drop_last());
        law_jobs_are_announced_before_they_are_sent(before, runs.last());
    }
}

/// What is said when no job could be made.
pub fn job_error<R>(error: &str) -> (r: StatEvent<R>)
    ensures
        r matches StatEvent::Event(message) && message@ == "Job error: "@ + error@,
{
    let mut text = String::from_str("Job error: ");
    text.append(error);
    StatEvent::Event(text)
}

/// The transactions of the mempool that are looked at: as many as fit in a block beside the one
/// that pays the reward.
pub open spec fn considered(mempool: Seq<TransactionModel>) -> Seq<TransactionModel> {
    if mempool.len() <= BLOCK_CAPACITY - 1 {
        mempool
    } else {
        mempool.take(BLOCK_CAPACITY - 1)
    }
}

/// Whether a waiting transaction is put into a block at `now`: it has not expired, and is not
/// about to.
pub open spec fn mineable(transaction: TransactionModel, now: u64) -> bool {
    transaction.timestamp + EXPIRATION > now + MEMPOOL_BUFFER
}

/// The transactions of the mempool that are put into a block at `now`.
pub open spec fn selected(mempool: Seq<TransactionModel>, now: u64) -> Seq<TransactionModel> {
    considered(mempool).filter(|t: TransactionModel| mineable(t, now))
}

/// The transactions of the mempool that are put into a block at `now`.
pub fn select_mempool_at(mempool: &Vec<JobTransaction>, now: u64) -> (r: Vec<JobTransaction>)
    ensures
        models(r@) == selected(models(mempool@), now),
{
    let first = snap_coin::core::utils::slice_vec(
        mempool.as_slice(),
        0,
        max_transactions_per_block() - 1,
    );
    let ghost all = considered(models(mempool@));
    let ghost keep = |t: TransactionModel| mineable(t, now);
    assert(models(first@) =~= all);
    let mut r: Vec<JobTransaction> = Vec::new();
    let mut i: usize = 0;
    assert(models(r@) =~= all.take(0).filter(keep)) by {
        reveal(Seq::filter);
    }
    while i < first.len()
        invariant
            0 <= i <= first@.len(),
            all == considered(models(mempool@)),
            models(first@) == all,
            keep == (|t: TransactionModel| mineable(t, now)),
            models(r@) == all.take(i as int).filter(keep),
        decreases first@.len() - i,
    {
        proof {
            assert(first@[i as int]@ == all[i as int]);
            assert(all.take(i + 1).drop_last() =~= all.take(i as int));
            reveal(Seq::filter);
        }
        let expires: u128 = first[i].timestamp as u128 + expiration_time() as u128;
        if expires > now as u128 + MEMPOOL_BUFFER as u128 {
            let ghost before = r@;
            r.push(first[i].duplicate());
            assert(models(r@) =~= models(before).push(all[i as int]));
        }
        i += 1;
    }
    assert(all.take(i as int) =~= all);
    r
}

/// The transactions that are put into a block, and the clock by which they were chosen.
pub struct Selection {
    pub transactions: Vec<JobTransaction>,
    pub heard: Heard,
}

impl std::ops::Deref for Selection {
    type Target = Vec<JobTransaction>;

    fn deref(&self) -> (r: &Vec<JobTransaction>)
        ensures
            *r == self.transactions,
    {
        &self.transactions
    }
}

/// The transactions of the mempool that are put into a block now, at the second that is read from
/// the clock in the call.
pub fn select_mempool(mempool: &Vec<JobTransaction>) -> (r: Selection)
    ensures
        exists|now: u64|
            now <= LATEST_SECOND && models(r.transactions@) == #[trigger] selected(
                models(mempool@),
                now,
            ),
        r.heard.seconds().len() == 1,
        models(r.transactions@) == selected(models(mempool@), r.heard.seconds()[0]),
{
    let mut heard = Heard::nothing();
    let now: u64 = clock_seconds(&mut heard);
    Selection { transactions: select_mempool_at(mempool, now), heard }
}

/// What is selected leaves room in the block for the transaction that pays the reward.
pub proof fn law_selection_leaves_room_for_the_reward(mempool: Seq<TransactionModel>, now: u64)
    ensures
        selected(mempool, now).len() + 1 <= BLOCK_CAPACITY,
{
    considered(mempool).lemma_filter_len(|t: TransactionModel| mineable(t, now));
}

/// What is selected is what the mempool puts first, as far as it is mineable.
pub proof fn law_selection_is_the_mineable_front(
    mempool: Seq<TransactionModel>,
    now: u64,
    transaction: TransactionModel,
)
    ensures
        selected(mempool, now).contains(transaction) <==> considered(mempool).contains(transaction)
            && mineable(transaction, now),
{
    let keep = |t: TransactionModel| mineable(t, now);
    let front = considered(mempool);
    let chosen = selected(mempool, now);
    if chosen.contains(transaction) {
        front.lemma_filter_contains_rev(keep, transaction);
        let k = choose|k: int| 0 <= k < chosen.len() && chosen[k] == transaction;
        front.lemma_filter_pred(keep, k);
    }
    if front.contains(transaction) && mineable(transaction, now) {
        let k = choose|k: int| 0 <= k < front.len() && front[k] == transaction;
        front.lemma_filter_contains(keep, k);
    }
}

/// What is selected at `now` can still stand in a block that is stamped up to [`MEMPOOL_BUFFER`]
/// seconds later: no transaction of it has expired by then.
pub proof fn law_selected_transactions_outlast_the_buffer(
    mempool: Seq<TransactionModel>,
    now: u64,
    transaction: TransactionModel,
    later: u64,
)
    requires
        selected(mempool, now).contains(transaction),
        later <= now + MEMPOOL_BUFFER,
    ensures
        transaction.timestamp + EXPIRATION > later,
{
    law_selection_is_the_mineable_front(mempool, now, transaction);
}

/// A thread that takes these jobs, one after the other.
pub open spec fn adopting_each(thread: ThreadModel, jobs: Seq<JobModel>) -> ThreadModel
    decreases jobs.len(),
{
    if jobs.len() == 0 {
        thread
    } else {
        adopting_each(thread, jobs.drop_last()).adopting(jobs.last())
    }
}

/// Every announced job counts one up, and so does every job that is taken. So a thread that misses
/// none keeps step with the announcements, and one that is behind stays behind by as much.
pub proof fn law_threads_keep_step(thread: ThreadModel, jobs: Seq<JobModel>, announced: u64)
    requires
        thread.local_job_id + jobs.len() <= u64::MAX,
        announced + jobs.len() <= u64::MAX,
    ensures
        adopting_each(thread, jobs).local_job_id == thread.local_job_id + jobs.len(),
        (announced + jobs.len()) - adopting_each(thread, jobs).local_job_id == announced
            - thread.local_job_id,
        jobs.len() > 0 ==> adopting_each(thread, jobs).current_block == Some(jobs.last()),
    decreases jobs.len(),
{
    if jobs.len() > 0 {
        law_threads_keep_step(thread, jobs.drop_last(), announced);
    }
}

/// What is selected, in numbers and one by one. Of the first 499 transactions of the mempool,
/// exactly those are put into a block whose stamp plus 350 seconds lies more than 5 seconds after
/// `now`, in their order; what else a transaction holds does not matter. Nothing behind them is.
pub proof fn law_selection_goes_by_the_stamp(
    mempool: Seq<TransactionModel>,
    transaction: TransactionModel,
    now: u64,
)
    ensures
        selected(Seq::empty(), now) == Seq::<TransactionModel>::empty(),
        mempool.len() < 499 ==> selected(mempool.push(transaction), now) == (if
        transaction.timestamp + 350 > now + 5 {
            selected(mempool, now).push(transaction)
        } else {
            selected(mempool, now)
        }),
        mempool.len() >= 499 ==> selected(mempool.push(transaction), now) == selected(
            mempool,
            now,
        ),
{
    let longer = mempool.push(transaction);
    reveal(Seq::filter);
    assert(selected(Seq::empty(), now) =~= Seq::<TransactionModel>::empty());
    if mempool.len() < 499 {
        assert(considered(longer) == longer);
        assert(longer.drop_last() =~= mempool);
    } else {
        assert(considered(longer) =~= considered(mempool));
    }
}

/// Every transaction among the first 499 of the mempool whose stamp plus 350 seconds lies more than
/// 5 seconds after `now` is put into the block, and no other transaction is.
pub proof fn law_every_fresh_transaction_is_selected(mempool: Seq<TransactionModel>, now: u64)
    ensures
        forall|i: int|
            0 <= i < mempool.len() && i < 499 && (#[trigger] mempool[i]).timestamp + 350 > now + 5
                ==> selected(mempool, now).contains(mempool[i]),
        forall|k: int|
            0 <= k < selected(mempool, now).len() ==> (#[trigger] selected(
                mempool,
                now,
            )[k]).timestamp + 350 > now + 5 && mempool.contains(selected(mempool, now)[k]),
        selected(mempool, now).len() <= 499,
{
    let keep = |t: TransactionModel| mineable(t, now);
    let front = considered(mempool);
    let chosen = selected(mempool, now);
    front.lemma_filter_len(keep);
    assert forall|i: int|
        0 <= i < mempool.len() && i < 499 && (#[trigger] mempool[i]).timestamp + 350 > now
            + 5 implies chosen.contains(mempool[i]) by {
        assert(front[i] == mempool[i]);
        front.lemma_filter_contains(keep, i);
    }
    assert forall|k: int| 0 <= k < chosen.len() implies (#[trigger] chosen[k]).timestamp + 350
        > now + 5 && mempool.contains(chosen[k]) by {
        front.lemma_filter_pred(keep, k);
        assert(chosen.contains(chosen[k]));
        front.lemma_filter_contains_rev(keep, chosen[k]);
        let i = choose|i: int| 0 <= i < front.len() && front[i] == chosen[k];
        assert(mempool[i] == chosen[k]);
    }
}

/// Alone, any event and the start of the miner make it build a block. For a pool, a block that is
/// sent is the job, as it is; no other event makes one, and neither does the start.
pub proof fn law_which_events_make_jobs(event: Option<ChainUpdate>, job: Job)
    ensures
        plan(false, event) is Build,
        plan(true, Some(ChainUpdate::Block(job))) == RefreshPlan::Publish(job),
        plan(true, Some(ChainUpdate::Transaction)) is Nothing,
        plan(true, Some(ChainUpdate::TransactionExpiration)) is Nothing,
        plan(true, None) is Nothing,
{
}

/// The steps of a refresh. Alone, a block is built; a pool's block is taken as it is. Then the
/// number of announced jobs is raised, the raised number is announced, the job is sent, unchanged,
/// and the refresh is over. For a pool, nothing is done without a block.
pub proof fn law_steps_of_a_refresh(event: Option<ChainUpdate>, job: Job, before: u64)
    requires
        before < u64::MAX,
    ensures
        first_action(false, event).1 is Build,
        expects(first_action(false, event).0, RefreshEvent::Built(job)),
        next_action(first_action(false, event).0, RefreshEvent::Built(job)) == first_action(
            true,
            Some(ChainUpdate::Block(job)),
        ),
        first_action(true, Some(ChainUpdate::Transaction)).1 is End,
        first_action(true, Some(ChainUpdate::TransactionExpiration)).1 is End,
        first_action(true, None).1 is End,
        ({
            let (raising, raise) = first_action(true, Some(ChainUpdate::Block(job)));
            let (announcing, announce) = next_action(raising, RefreshEvent::Raised(before));
            let (sending, send) = next_action(announcing, RefreshEvent::Announced);
            let (ended, end) = next_action(sending, RefreshEvent::Sent);
            &&& raise is Raise
            &&& expects(raising, RefreshEvent::Raised(before))
            &&& announce matches RefreshAction::Announce(number) && number == before + 1
            &&& expects(announcing, RefreshEvent::Announced)
            &&& send == RefreshAction::Send(job)
            &&& expects(sending, RefreshEvent::Sent)
            &&& end is End
        }),
{
}

/// A refresh may begin exactly when none is running; asking closes the latch and ending opens it.
pub proof fn law_the_latch(refreshing: bool)
    ensures
        admits(refreshing) <==> !refreshing,
        closes(LatchStep::Enter),
        !closes(LatchStep::Leave),
{
}

} // verus!
