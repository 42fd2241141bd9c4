//! A mining thread: which job it works on, when it attempts it, and what it submits.

use vstd::prelude::*;
use vstd::string::*;

use crate::bytes::{be_value, comes_after};
use crate::chain::{
    law_attached_hash_is_sound, law_complete_blocks_always_refresh,
    law_refresh_keeps_the_commitments, Job, JobModel, MineError,
};
use crate::outside::{clock_seconds, hash_text, random_nonce, Heard, LATEST_SECOND};
use crate::pool::PoolInfo;
use crate::stats::StatEvent;
use crate::text::{base36, decimal, push_decimal, push_signed, signed_decimal};

verus! {

/// How many hashes a thread computes between two reports.
pub const REPORT_INTERVAL: u64 = 100;

/// How long a thread sleeps before it looks for a job again, in milliseconds.
pub const POLL_PAUSE: u64 = 5;

/// How long a thread sleeps when its job is not the current one, in milliseconds.
pub const SYNC_PAUSE: u64 = 10;

/// What a mining thread remembers between two attempts.
pub struct MiningThread {
    pub thread_id: i32,
    pub is_pool: bool,
    pub pool_info: Option<PoolInfo>,
    /// How many jobs the thread has taken.
    pub local_job_id: u64,
    /// The job that the thread works on.
    pub current_block: Option<Job>,
    /// How many hashes the thread has computed since its last report.
    pub thread_hashes: u64,
    /// What the clock and the random numbers have said to the thread.
    pub heard: Heard,
}

/// The mathematical value of a [`MiningThread`], but for what it has heard.
#[verifier::ext_equal]
pub struct ThreadModel {
    pub thread_id: i32,
    pub is_pool: bool,
    pub pool_info: Option<PoolInfo>,
    pub local_job_id: u64,
    pub current_block: Option<JobModel>,
    pub thread_hashes: u64,
}

/// What looking for a job came to.
#[derive(Debug)]
pub enum JobPoll {
    /// A job was waiting.
    Job(Job),
    /// No job was waiting.
    Empty,
    /// This many jobs were lost because the thread was too slow to take them.
    Lagged(u64),
    /// No job will come any more.
    Closed,
}

/// Why a thread ends.
#[derive(Clone, Copy, Debug, PartialEq, Eq, Structural)]
pub enum StopReason {
    /// The miner is shutting down.
    Shutdown,
    /// No job will come any more.
    ChannelClosed,
}

/// What a thread does about what it found when it looked for a job.
#[derive(Debug)]
pub enum PollStep<R> {
    /// Go on with the job at hand.
    Ready,
    /// Sleep for so many milliseconds and look again.
    Pause(u64),
    /// Report this and look again.
    Report(StatEvent<R>),
    /// End: no job will come any more.
    Closed,
}

/// What a thread does with the job that it holds.
#[derive(Clone, Copy, Debug, PartialEq, Eq, Structural)]
pub enum MineStep {
    /// Attempt it.
    Attempt,
    /// Sleep for so many milliseconds: the job is not the current one.
    Pause(u64),
}

/// A block that meets its target, and what to say about it.
#[derive(Debug)]
pub struct Submission {
    pub message: String,
    pub block: Job,
}

impl View for MiningThread {
    type V = ThreadModel;

    open spec fn view(&self) -> ThreadModel {
        ThreadModel {
            thread_id: self.thread_id,
            is_pool: self.is_pool,
            pool_info: self.pool_info,
            local_job_id: self.local_job_id,
            current_block: match self.current_block {
                Some(job) => Some(job@),
                None => None,
            },
            thread_hashes: self.thread_hashes,
        }
    }
}

impl ThreadModel {
    /// A thread reports as soon as it has computed [`REPORT_INTERVAL`] hashes.
    pub open spec fn wf(self) -> bool {
        self.thread_hashes < REPORT_INTERVAL
    }

    /// Whether the thread has to look for a job, when `global` jobs have been announced: it has
    /// none, or is behind.
    pub open spec fn needs_job(self, global: u64) -> bool {
        self.current_block is None || global > self.local_job_id
    }

    /// The thread with one more job taken.
    pub open spec fn adopting(self, job: JobModel) -> ThreadModel {
        ThreadModel {
            local_job_id: (self.local_job_id + 1) as u64,
            current_block: Some(job),
            ..self
        }
    }

    /// What the thread does with its job, when `global` jobs have been announced: it attempts the
    /// current one only.
    pub open spec fn mine_step(self, global: u64) -> MineStep {
        if global == self.local_job_id {
            MineStep::Attempt
        } else {
            MineStep::Pause(SYNC_PAUSE)
        }
    }

    /// Whether the thread can attempt its job at `now`.
    pub open spec fn can_attempt(self, now: u64) -> bool {
        self.current_block matches Some(job) && job.nonce < u64::MAX && job.can_refresh(now)
    }

    /// What attempting the job at `now` leaves, and what it comes to: an error, or the number of
    /// hashes to report, if a report is due.
    pub open spec fn attempted(self, now: u64) -> (ThreadModel, Result<Option<u64>, MineError>) {
        let job = self.current_block->0;
        let (tried, error) = job.attempted(now, (job.nonce + 1) as u64);
        let held = ThreadModel { current_block: Some(tried), ..self };
        match error {
            Some(e) => (held, Err(e)),
            None => if self.thread_hashes + 1 == REPORT_INTERVAL {
                (ThreadModel { thread_hashes: 0, ..held }, Ok(Some(REPORT_INTERVAL)))
            } else {
                (
                    ThreadModel { thread_hashes: (self.thread_hashes + 1) as u64, ..held },
                    Ok(None),
                )
            },
        }
    }

    /// Whether there is a target to hold the hash against.
    pub open spec fn has_target(self) -> bool {
        &&& self.is_pool ==> self.pool_info is Some
        &&& self.current_block is Some
        &&& self.current_block->0.hash is Some
    }

    /// The number that the hash must stay below: the pool's, or the one in the block.
    pub open spec fn target(self) -> [u8; 32] {
        if self.is_pool {
            self.pool_info->0.pool_difficulty
        } else {
            self.current_block->0.block_pow_difficulty
        }
    }

    /// Whether the hash of the job meets its target.
    pub open spec fn qualifies(self) -> bool {
        be_value(self.target()@) > be_value(self.current_block->0.hash->0@)
    }

    /// Whether the job is submitted, when `global` jobs have been announced: the hash meets the
    /// target and no newer job is out.
    pub open spec fn submits(self, global: u64) -> bool {
        self.qualifies() && global == self.local_job_id
    }
}

/// What is said when a thread has lost jobs.
pub open spec fn lagged_text(thread_id: i32, skipped: u64) -> Seq<char> {
    "Thread "@ + signed_decimal(thread_id + 1) + " lagged by "@ + decimal(skipped as nat)
        + " jobs"@
}

/// What is said when a thread has found a share or a block.
pub open spec fn found_text(thread_id: i32, is_pool: bool, hash: [u8; 32]) -> Seq<char> {
    "Thread "@ + signed_decimal(thread_id + 1) + (if is_pool {
        " found share: "@
    } else {
        " found block: "@
    }) + base36(be_value(hash@))
}

/// What is said when a thread is asked to end.
pub open spec fn shutdown_text(thread_id: i32) -> Seq<char> {
    "Requested thread shutdown "@ + signed_decimal(thread_id as int)
}

/// What a thread did about what it found, given the nonce that was drawn for a job.
pub open spec fn poll_outcome<R>(
    before: ThreadModel,
    poll: JobPoll,
    nonce: u64,
    after: ThreadModel,
    step: PollStep<R>,
) -> bool {
    match poll {
        JobPoll::Job(job) => {
            &&& after == before.adopting(JobModel { nonce, ..job@ })
            &&& step is Ready
        },
        JobPoll::Empty => {
            &&& after == before
            &&& step == PollStep::<R>::Pause(POLL_PAUSE)
        },
        JobPoll::Lagged(skipped) => {
            &&& after == before
            &&& step matches PollStep::Report(StatEvent::Event(message)) && message@
                == lagged_text(before.thread_id, skipped)
        },
        JobPoll::Closed => {
            &&& after == before
            &&& step == PollStep::<R>::Closed
        },
    }
}

/// What an attempt did when the clock stood at `now`: nothing where the job could not be attempted
/// then.
pub open spec fn attempt_outcome(
    before: ThreadModel,
    now: u64,
    after: ThreadModel,
    r: Option<Result<Option<u64>, MineError>>,
) -> bool {
    if before.can_attempt(now) {
        after == before.attempted(now).0 && r == Some(before.attempted(now).1)
    } else {
        after == before && r is None
    }
}

impl StopReason {
    /// The reason in words.
    pub fn message(&self, thread_id: i32) -> (r: String)
        ensures
            r@ == (match self {
                StopReason::Shutdown => shutdown_text(thread_id),
                StopReason::ChannelClosed => "Job channel closed"@,
            }),
    {
        match self {
            StopReason::Shutdown => shutdown_message(thread_id),
            StopReason::ChannelClosed => String::from_str("Job channel closed"),
        }
    }
}

/// What is said when a thread is asked to end.
pub fn shutdown_message(thread_id: i32) -> (r: String)
    ensures
        r@ == shutdown_text(thread_id),
{
    let mut text = String::from_str("Requested thread shutdown ");
    push_signed(&mut text, thread_id as i64);
    text
}

impl MiningThread {
    /// A thread that has taken no job.
    pub fn new(thread_id: i32, is_pool: bool, pool_info: Option<PoolInfo>) -> (r: MiningThread)
        ensures
            r@.wf(),
            r@ == (ThreadModel {
                thread_id,
                is_pool,
                pool_info,
                local_job_id: 0,
                current_block: None,
                thread_hashes: 0,
            }),
    {
        MiningThread {
            thread_id,
            is_pool,
            pool_info,
            local_job_id: 0,
            current_block: None,
            thread_hashes: 0,
            heard: Heard::nothing(),
        }
    }

    /// Whether the thread has to look for a job, when `global` jobs had been announced as the round
    /// began.
    pub fn awaits_job(&self, global: u64) -> (r: bool)
        ensures
            r == self@.needs_job(global),
    {
        self.current_block.is_none() || global > self.local_job_id
    }

    /// Takes a job.
    pub fn adopt(&mut self, job: Job)
        requires
            old(self).local_job_id < u64::MAX,
        ensures
            final(self)@ == old(self)@.adopting(job@),
            final(self).heard == old(self).heard,
    {
        self.local_job_id = self.local_job_id + 1;
        self.current_block = Some(job);
    }

    /// Acts on what looking for a job came to. A job that is taken starts from `nonce`.
    pub fn take_poll<R>(&mut self, poll: JobPoll, nonce: u64) -> (r: PollStep<R>)
        requires
            poll is Job ==> old(self).local_job_id < u64::MAX,
            poll is Lagged ==> old(self).thread_id < i32::MAX,
        ensures
            poll_outcome(old(self)@, poll, nonce, final(self)@, r),
            final(self).heard == old(self).heard,
    {
        match poll {
            JobPoll::Job(job) => {
                let mut job = job;
                job.nonce = nonce;
                self.adopt(job);
                PollStep::Ready
            },
            JobPoll::Empty => PollStep::Pause(POLL_PAUSE),
            JobPoll::Lagged(skipped) => {
                let mut text = String::from_str("Thread ");
                push_signed(&mut text, self.thread_id as i64 + 1);
                text.append(" lagged by ");
                push_decimal(&mut text, skipped);
                text.append(" jobs");
                PollStep::Report(StatEvent::Event(text))
            },
            JobPoll::Closed => PollStep::Closed,
        }
    }

    /// Acts on what looking for a job came to. A job that is taken starts from a random nonce, the
    /// one that is drawn in the call.
    pub fn on_poll<R>(&mut self, poll: JobPoll) -> (r: PollStep<R>)
        requires
            poll is Job ==> old(self).local_job_id < u64::MAX,
            poll is Lagged ==> old(self).thread_id < i32::MAX,
        ensures
            exists|nonce: u64| #[trigger]
                poll_outcome(old(self)@, poll, nonce, final(self)@, r),
            poll is Job ==> {
                let nonce = final(self).heard.draws().last();
                &&& final(self).heard.draws() == old(self).heard.draws().push(nonce)
                &&& poll_outcome(old(self)@, poll, nonce, final(self)@, r)
                &&& final(self).current_block is Some
                &&& final(self).current_block->0.nonce == nonce
            },
            !(poll is Job) ==> final(self).heard.draws() == old(self).heard.draws(),
            final(self).heard.seconds() == old(self).heard.seconds(),
    {
        let ghost before = self@;
        let nonce: u64 = match &poll {
            JobPoll::Job(_) => random_nonce(&mut self.heard),
            _ => 0,
        };
        assert(self@ == before);
        let r = self.take_poll(poll, nonce);
        assert(poll_outcome(before, poll, nonce, self@, r));
        r
    }

    /// What the thread does with its job, when `global` jobs have been announced.
    pub fn mine_step(&self, global: u64) -> (r: MineStep)
        ensures
            r == self@.mine_step(global),
    {
        if global != self.local_job_id {
            MineStep::Pause(SYNC_PAUSE)
        } else {
            MineStep::Attempt
        }
    }

    /// Whether the thread can attempt its job at `now`.
    pub fn can_attempt(&self, now: u64) -> (r: bool)
        ensures
            r == self@.can_attempt(now),
    {
        match &self.current_block {
            Some(job) => job.nonce < u64::MAX && job.can_refresh(now),
            None => false,
        }
    }

    /// Attempts the job at `now` under the next nonce, and counts the hash. Returns the number of
    /// hashes to report, if a report is due. This always succeeds.
    pub fn attempt_at(&mut self, now: u64) -> (r: Result<Option<u64>, MineError>)
        requires
            old(self)@.wf(),
            old(self)@.can_attempt(now),
        ensures
            final(self)@.wf(),
            final(self)@ == old(self)@.attempted(now).0,
            r == old(self)@.attempted(now).1,
            r is Ok,
            final(self)@.current_block is Some,
            final(self)@.current_block->0.hash_is_sound(),
            final(self).heard == old(self).heard,
    {
        match self.current_block.take() {
            Some(job) => {
                let mut job = job;
                let nonce: u64 = job.nonce + 1;
                let outcome = job.attempt(now, nonce);
                self.current_block = Some(job);
                match outcome {
                    Ok(_) => {},
                    Err(e) => {
                        return Err(e);
                    },
                }
            },
            None => {},
        }
        self.thread_hashes = self.thread_hashes + 1;
        if self.thread_hashes % REPORT_INTERVAL == 0 {
            let hashes: u64 = self.thread_hashes;
            self.thread_hashes = 0;
            Ok(Some(hashes))
        } else {
            Ok(None)
        }
    }

    /// Attempts the job now, at the second that is read from the clock in the call. Returns nothing,
    /// and leaves the thread as it was, where it cannot. A job that is complete, with a nonce left,
    /// is attempted whatever the clock says.
    pub fn attempt(&mut self) -> (r: Option<Result<Option<u64>, MineError>>)
        requires
            old(self)@.wf(),
        ensures
            final(self)@.wf(),
            exists|now: u64|
                now <= LATEST_SECOND && #[trigger] attempt_outcome(
                    old(self)@,
                    now,
                    final(self)@,
                    r,
                ),
            r matches Some(outcome) ==> outcome is Ok,
            old(self)@.current_block matches Some(job) && job.nonce < u64::MAX
                && job.always_refreshes() ==> r is Some,
            ({
                let now = final(self).heard.seconds().last();
                &&& final(self).heard.seconds() == old(self).heard.seconds().push(now)
                &&& attempt_outcome(old(self)@, now, final(self)@, r)
                &&& r is Some ==> final(self).current_block is Some
                    && final(self).current_block->0.timestamp == now
            }),
            final(self).heard.draws() == old(self).heard.draws(),
    {
        let now: u64 = clock_seconds(&mut self.heard);
        let ghost before = self@;
        proof {
            if before.current_block is Some && before.current_block->0.always_refreshes() {
                law_complete_blocks_always_refresh(before.current_block->0, now);
            }
        }
        if self.can_attempt(now) {
            let r = Some(self.attempt_at(now));
            assert(attempt_outcome(before, now, self@, r));
            r
        } else {
            let r: Option<Result<Option<u64>, MineError>> = None;
            assert(attempt_outcome(before, now, self@, r));
            r
        }
    }

    /// The report of a thread that has computed `hashes` hashes since the last one.
    pub fn hash_report<R>(&self, hashes: u64) -> (r: StatEvent<R>)
        ensures
            r == StatEvent::<R>::ThreadHash(self.thread_id as usize, hashes),
    {
        StatEvent::ThreadHash(self.thread_id as usize, hashes)
    }

    /// Whether the hash of the job meets its target.
    pub fn qualifies(&self) -> (r: bool)
        requires
            self@.has_target(),
        ensures
            r == self@.qualifies(),
    {
        match &self.current_block {
            Some(job) => {
                let hash: [u8; 32] = job.meta.hash.unwrap();
                if self.is_pool {
                    comes_after(&self.pool_info.unwrap().pool_difficulty, &hash)
                } else {
                    comes_after(&job.meta.block_pow_difficulty, &hash)
                }
            },
            None => false,
        }
    }

    /// Whether the block is a submission, when `global` jobs have been announced.
    pub fn is_submission(&self, global: u64) -> (r: bool)
        requires
            self@.has_target(),
        ensures
            r == self@.submits(global),
    {
        self.qualifies() && global == self.local_job_id
    }

    /// The block to submit, when `global` jobs have been announced, and what to say about it.
    pub fn submission(&self, global: u64) -> (r: Option<Submission>)
        requires
            self@.has_target(),
            self.thread_id < i32::MAX,
        ensures
            r is Some <==> self@.submits(global),
            r matches Some(s) ==> {
                &&& s.block@ == self@.current_block->0
                &&& s.message@ == found_text(
                    self.thread_id,
                    self.is_pool,
                    self@.current_block->0.hash->0,
                )
            },
    {
        if !self.is_submission(global) {
            return None;
        }
        match &self.current_block {
            Some(job) => {
                let hash: [u8; 32] = job.meta.hash.unwrap();
                let mut text = String::from_str("Thread ");
                push_signed(&mut text, self.thread_id as i64 + 1);
                if self.is_pool {
                    text.append(" found share: ");
                } else {
                    text.append(" found block: ");
                }
                let hash_in_words = hash_text(&hash);
                text.append(hash_in_words.as_str());
                Some(Submission { message: text, block: job.duplicate() })
            },
            None => None,
        }
    }
}

/// Attempts at these moments, one after the other.
pub open spec fn attempted_at_each(thread: ThreadModel, moments: Seq<u64>) -> ThreadModel
    decreases moments.len(),
{
    if moments.len() == 0 {
        thread
    } else {
        attempted_at_each(thread, moments.drop_last()).attempted(moments.last()).0
    }
}

/// Whether none of the attempts at these moments ends in an error.
pub open spec fn all_succeed(thread: ThreadModel, moments: Seq<u64>) -> bool
    decreases moments.len(),
{
    moments.len() == 0 || {
        &&& all_succeed(thread, moments.drop_last())
        &&& attempted_at_each(thread, moments.drop_last()).attempted(moments.last()).1 is Ok
    }
}

/// What a thread does between two reports.
pub enum ThreadStep {
    /// Attempts its job at this moment.
    Attempt(u64),
    /// Takes this job.
    Take(JobModel),
}

/// What a step leaves, and what an attempt comes to. An attempt that is not possible leaves the
/// thread as it was.
pub open spec fn stepped(thread: ThreadModel, step: ThreadStep) -> (
    ThreadModel,
    Option<Result<Option<u64>, MineError>>,
) {
    match step {
        ThreadStep::Attempt(now) => if thread.can_attempt(now) {
            (thread.attempted(now).0, Some(thread.attempted(now).1))
        } else {
            (thread, None)
        },
        ThreadStep::Take(job) => (thread.adopting(job), None),
    }
}

/// These steps, one after the other.
pub open spec fn stepped_through(thread: ThreadModel, steps: Seq<ThreadStep>) -> ThreadModel
    decreases steps.len(),
{
    if steps.len() == 0 {
        thread
    } else {
        stepped(stepped_through(thread, steps.drop_last()), steps.last()).0
    }
}

/// How many hashes these steps compute: one for each attempt that succeeds.
pub open spec fn hashes_computed(thread: ThreadModel, steps: Seq<ThreadStep>) -> nat
    decreases steps.len(),
{
    if steps.len() == 0 {
        0
    } else {
        let before = stepped_through(thread, steps.drop_last());
        hashes_computed(thread, steps.drop_last()) + match stepped(before, steps.last()).1 {
            Some(Ok(_)) => 1nat,
            _ => 0,
        }
    }
}

/// How many hashes these steps report, all reports together.
pub open spec fn hashes_reported(thread: ThreadModel, steps: Seq<ThreadStep>) -> nat
    decreases steps.len(),
{
    if steps.len() == 0 {
        0
    } else {
        let before = stepped_through(thread, steps.drop_last());
        hashes_reported(thread, steps.drop_last()) + match stepped(before, steps.last()).1 {
            Some(Ok(Some(hashes))) => hashes as nat,
            _ => 0,
        }
    }
}

/// No hash is lost and none is reported twice: after any number of attempts, whether they succeed
/// or not, and whatever jobs are taken between them, the hashes reported and those still to be
/// reported are the hashes computed. Fewer than [`REPORT_INTERVAL`] wait.
pub proof fn law_every_hash_is_reported_once(thread: ThreadModel, steps: Seq<ThreadStep>)
    requires
        thread.wf(),
    ensures
        stepped_through(thread, steps).wf(),
        hashes_reported(thread, steps) + stepped_through(thread, steps).thread_hashes
            == thread.thread_hashes + hashes_computed(thread, steps),
        hashes_reported(thread, steps) == (thread.thread_hashes + hashes_computed(thread, steps))
            / REPORT_INTERVAL as int * REPORT_INTERVAL,
    decreases steps.len(),
{
    if steps.len() > 0 {
        law_every_hash_is_reported_once(thread, steps.drop_last());
    }
}

/// A block that committed to its transactions when the thread took it still does after any number
/// of attempts, whatever expired on the way.
pub proof fn law_commitments_survive_mining(thread: ThreadModel, moments: Seq<u64>)
    requires
        thread.current_block is Some,
        thread.current_block->0.commits_to_transactions(),
        all_succeed(thread, moments),
    ensures
        attempted_at_each(thread, moments).current_block is Some,
        attempted_at_each(thread, moments).current_block->0.commits_to_transactions(),
    decreases moments.len(),
{
    if moments.len() > 0 {
        law_commitments_survive_mining(thread, moments.drop_last());
        let before = attempted_at_each(thread, moments.drop_last());
        law_refresh_keeps_the_commitments(before.current_block->0, moments.last());
    }
}

/// No nonce is tried twice: every attempt at a job takes the next one.
pub proof fn law_nonces_advance(thread: ThreadModel, moments: Seq<u64>)
    requires
        thread.current_block is Some,
        thread.current_block->0.nonce + moments.len() <= u64::MAX,
        all_succeed(thread, moments),
    ensures
        attempted_at_each(thread, moments).current_block is Some,
        attempted_at_each(thread, moments).current_block->0.nonce
            == thread.current_block->0.nonce + moments.len(),
    decreases moments.len(),
{
    if moments.len() > 0 {
        law_nonces_advance(thread, moments.drop_last());
    }
}

/// What a thread submits after an attempt is worth submitting: the block carries its own hash, the
/// hash is below the target, no newer job is out, and a block that committed to its transactions
/// still does.
pub proof fn law_submitted_blocks_are_sound(thread: ThreadModel, now: u64, global: u64)
    requires
        thread.can_attempt(now),
        thread.attempted(now).1 is Ok,
        thread.attempted(now).0.submits(global),
        thread.current_block->0.commits_to_transactions(),
    ensures
        thread.attempted(now).0.current_block is Some,
        ({
            let block = thread.attempted(now).0.current_block->0;
            &&& block.hash_is_sound()
            &&& block.commits_to_transactions()
            &&& be_value(block.hash->0@) < be_value(thread.attempted(now).0.target()@)
            &&& block.timestamp == now
            &&& block.nonce == thread.current_block->0.nonce + 1
            &&& thread.local_job_id == global
        }),
{
    let job = thread.current_block->0;
    let nonce = (job.nonce + 1) as u64;
    law_attached_hash_is_sound(job, now, nonce);
    law_refresh_keeps_the_commitments(job, now);
}

/// After an attempt that succeeded there is a target to hold the hash against, unless the thread
/// mines for a pool that it knows nothing of.
pub proof fn law_attempt_leaves_a_target(thread: ThreadModel, now: u64)
    requires
        thread.can_attempt(now),
        thread.attempted(now).1 is Ok,
        thread.is_pool ==> thread.pool_info is Some,
    ensures
        thread.attempted(now).0.has_target(),
{
}

/// An attempt does not move the thread to another job.
pub proof fn law_attempt_stays_with_the_job(thread: ThreadModel, now: u64)
    ensures
        thread.attempted(now).0.local_job_id == thread.local_job_id,
        thread.attempted(now).0.thread_id == thread.thread_id,
        thread.attempted(now).0.is_pool == thread.is_pool,
        thread.attempted(now).0.pool_info == thread.pool_info,
{
}

/// A thread does not work on, and does not submit, a job that is not the current one.
pub proof fn law_stale_jobs_are_not_submitted(thread: ThreadModel, global: u64)
    requires
        global > thread.local_job_id,
    ensures
        thread.needs_job(global),
        !thread.submits(global),
{
}

} // verus!
