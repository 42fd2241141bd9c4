//! The mining thread of the console front end: every attempt draws a nonce of its own, and hashes
//! are held against their target as big integers.

use vstd::prelude::*;
use vstd::string::*;

use crate::bytes::be_value;
use crate::chain::{
    law_attached_hash_is_sound, law_complete_blocks_always_refresh, Job, JobModel, MineError,
};
use crate::mining::{MiningThread, Submission, ThreadModel};
use crate::outside::{clock_seconds, hash_text, number_exceeds, random_nonce, LATEST_SECOND};
use crate::text::{base36, decimal, push_decimal, push_signed, signed_decimal};

verus! {

/// What waiting for a job came to.
#[derive(Debug)]
pub enum Delivery {
    /// A job came.
    Job(Job),
    /// This many jobs were lost because the thread was too slow to take them.
    Lagged(u64),
    /// No job will come any more.
    Closed,
}

/// What a thread does about what came.
#[derive(Debug)]
pub enum DeliveryStep {
    /// Go on with the job at hand.
    Ready,
    /// Print this and wait again.
    Warn(String),
    /// End: no job will come any more.
    Closed,
}

/// How every line about a thread starts.
pub open spec fn thread_prefix(thread_id: int) -> Seq<char> {
    "[THREAD "@ + signed_decimal(thread_id) + "] "@
}

/// What is printed when a thread starts.
pub open spec fn starting_line(thread_id: i32) -> Seq<char> {
    thread_prefix(thread_id + 1) + "Starting miner"@
}

/// What is printed when a thread has lost jobs.
pub open spec fn lagged_line(thread_id: i32, skipped: u64) -> Seq<char> {
    thread_prefix(thread_id as int) + "Warning: Lagged by "@ + decimal(skipped as nat)
        + " jobs, catching up..."@
}

/// What is printed when a thread has found a share or a block.
pub open spec fn found_line(thread_id: i32, is_pool: bool, hash: [u8; 32]) -> Seq<char> {
    thread_prefix(thread_id as int) + (if is_pool {
        "Found share "@
    } else {
        "Found block "@
    }) + base36(be_value(hash@))
}

impl ThreadModel {
    /// Whether the thread can attempt its job at `now` under a nonce that it is given.
    pub open spec fn can_draw(self, now: u64) -> bool {
        self.current_block matches Some(job) && job.can_refresh(now)
    }

    /// What attempting the job at `now` under `nonce` leaves, and the error it ends in, if any.
    pub open spec fn drawn(self, now: u64, nonce: u64) -> (ThreadModel, Option<MineError>) {
        let (tried, error) = self.current_block->0.attempted(now, nonce);
        (ThreadModel { current_block: Some(tried), ..self }, error)
    }
}

/// What an attempt did when the clock stood at `now` and `nonce` was drawn: nothing where the job
/// could not be attempted then.
pub open spec fn draw_outcome(
    before: ThreadModel,
    now: u64,
    nonce: u64,
    after: ThreadModel,
    r: Option<Result<(), MineError>>,
) -> bool {
    if before.can_draw(now) {
        &&& after == before.drawn(now, nonce).0
        &&& match before.drawn(now, nonce).1 {
            None => r matches Some(Ok(_)),
            Some(e) => r == Some(Err::<(), MineError>(e)),
        }
    } else {
        after == before && r is None
    }
}

/// The start of every line about a thread.
fn thread_line(thread_id: i64) -> (r: String)
    ensures
        r@ == thread_prefix(thread_id as int),
{
    let mut text = String::from_str("[THREAD ");
    push_signed(&mut text, thread_id);
    text.append("] ");
    text
}

/// What is printed when a thread starts.
pub fn starting_message(thread_id: i32) -> (r: String)
    requires
        thread_id < i32::MAX,
    ensures
        r@ == starting_line(thread_id),
{
    let mut text = thread_line(thread_id as i64 + 1);
    text.append("Starting miner");
    text
}

impl MiningThread {
    /// Acts on what waiting for a job came to.
    pub fn on_delivery(&mut self, delivery: Delivery) -> (r: DeliveryStep)
        requires
            delivery is Job ==> old(self).local_job_id < u64::MAX,
        ensures
            match delivery {
                Delivery::Job(job) => {
                    &&& final(self)@ == old(self)@.adopting(job@)
                    &&& r is Ready
                },
                Delivery::Lagged(skipped) => {
                    &&& final(self)@ == old(self)@
                    &&& r matches DeliveryStep::Warn(line) && line@ == lagged_line(
                        old(self).thread_id,
                        skipped,
                    )
                },
                Delivery::Closed => {
                    &&& final(self)@ == old(self)@
                    &&& r is Closed
                },
            },
            final(self).heard == old(self).heard,
    {
        match delivery {
            Delivery::Job(job) => {
                self.adopt(job);
                DeliveryStep::Ready
            },
            Delivery::Lagged(skipped) => {
                let mut text = thread_line(self.thread_id as i64);
                text.append("Warning: Lagged by ");
                push_decimal(&mut text, skipped);
                text.append(" jobs, catching up...");
                DeliveryStep::Warn(text)
            },
            Delivery::Closed => DeliveryStep::Closed,
        }
    }

    /// Attempts the job at `now` under `nonce`. This always succeeds.
    pub fn draw_at(&mut self, now: u64, nonce: u64) -> (r: Result<(), MineError>)
        requires
            old(self)@.can_draw(now),
        ensures
            final(self)@ == old(self)@.drawn(now, nonce).0,
            r is Ok,
            old(self)@.drawn(now, nonce).1 is None,
            final(self)@.current_block is Some,
            final(self)@.current_block->0.hash_is_sound(),
            final(self).heard == old(self).heard,
    {
        match self.current_block.take() {
            Some(job) => {
                let mut job = job;
                let r = job.attempt(now, nonce);
                self.current_block = Some(job);
                r
            },
            None => Ok(()),
        }
    }

    /// Attempts the job now under a random nonce: at the second that is read and under the nonce
    /// that is drawn in the call. Returns nothing, and leaves the thread as it was, where it cannot.
    /// A job that is complete is attempted whatever the clock says.
    pub fn draw(&mut self) -> (r: Option<Result<(), MineError>>)
        ensures
            exists|now: u64, nonce: u64|
                now <= LATEST_SECOND && #[trigger] draw_outcome(
                    old(self)@,
                    now,
                    nonce,
                    final(self)@,
                    r,
                ),
            r matches Some(outcome) ==> outcome is Ok,
            old(self)@.current_block matches Some(job) && job.always_refreshes() ==> r is Some,
            ({
                let now = final(self).heard.seconds().last();
                let nonce = final(self).heard.draws().last();
                &&& final(self).heard.seconds() == old(self).heard.seconds().push(now)
                &&& draw_outcome(old(self)@, now, nonce, final(self)@, r)
                &&& r is Some ==> {
                    &&& final(self).heard.draws() == old(self).heard.draws().push(nonce)
                    &&& final(self).current_block is Some
                    &&& final(self).current_block->0.timestamp == now
                    &&& final(self).current_block->0.nonce == nonce
                }
                &&& r is None ==> final(self).heard.draws() == old(self).heard.draws()
            }),
    {
        let now: u64 = clock_seconds(&mut self.heard);
        let ghost before = self@;
        proof {
            if before.current_block is Some && before.current_block->0.always_refreshes() {
                law_complete_blocks_always_refresh(before.current_block->0, now);
            }
        }
        let possible: bool = match &self.current_block {
            Some(job) => job.can_refresh(now),
            None => false,
        };
        if possible {
            let nonce: u64 = random_nonce(&mut self.heard);
            let r = Some(self.draw_at(now, nonce));
            assert(draw_outcome(before, now, nonce, self@, r));
            r
        } else {
            let r: Option<Result<(), MineError>> = None;
            assert(draw_outcome(before, now, 0, self@, r));
            r
        }
    }

    /// Whether the hash of the job, as a number, stays below its target.
    pub fn outdoes_target(&self) -> (r: bool)
        requires
            self@.has_target(),
        ensures
            r == self@.qualifies(),
    {
        match &self.current_block {
            Some(job) => {
                let hash: [u8; 32] = job.meta.hash.unwrap();
                if self.is_pool {
                    number_exceeds(&self.pool_info.unwrap().pool_difficulty, &hash)
                } else {
                    number_exceeds(&job.meta.block_pow_difficulty, &hash)
                }
            },
            None => false,
        }
    }

    /// The block to submit, when `global` jobs have been announced, and what to print about it.
    pub fn console_submission(&self, global: u64) -> (r: Option<Submission>)
        requires
            self@.has_target(),
        ensures
            r is Some <==> self@.submits(global),
            r matches Some(s) ==> {
                &&& s.block@ == self@.current_block->0
                &&& s.message@ == found_line(
                    self.thread_id,
                    self.is_pool,
                    self@.current_block->0.hash->0,
                )
            },
    {
        if !self.outdoes_target() || global != self.local_job_id {
            return None;
        }
        match &self.current_block {
            Some(job) => {
                let hash: [u8; 32] = job.meta.hash.unwrap();
                let mut text = thread_line(self.thread_id as i64);
                if self.is_pool {
                    text.append("Found share ");
                } else {
                    text.append("Found block ");
                }
                let hash_in_words = hash_text(&hash);
                text.append(hash_in_words.as_str());
                Some(Submission { message: text, block: job.duplicate() })
            },
            None => None,
        }
    }
}

/// What a thread submits after it drew a nonce carries its own hash, which is below the target, and
/// no newer job is out.
pub proof fn law_drawn_submissions_are_sound(
    thread: ThreadModel,
    now: u64,
    nonce: u64,
    global: u64,
)
    requires
        thread.can_draw(now),
        thread.drawn(now, nonce).1 is None,
        thread.drawn(now, nonce).0.submits(global),
    ensures
        ({
            let block = thread.drawn(now, nonce).0.current_block->0;
            &&& block.hash_is_sound()
            &&& block.nonce == nonce
            &&& be_value(block.hash->0@) < be_value(thread.drawn(now, nonce).0.target()@)
            &&& thread.local_job_id == global
        }),
{
    law_attached_hash_is_sound(thread.current_block->0, now, nonce);
}

} // verus!
