//! One round of a mining thread, step by step: what the program around it does next, given what
//! came of the last thing that it did.

use vstd::prelude::*;

use crate::mining::{MineStep, MiningThread, StopReason, ThreadModel};

verus! {

/// Which front end the thread works for.
#[derive(Clone, Copy, Debug, PartialEq, Eq, Structural)]
pub enum FrontEnd {
    /// The dashboard: a thread looks for jobs between looks at whether the miner shuts down, counts
    /// a hash before it holds it against the target, and reports how many it has computed.
    Dashboard,
    /// The console: a thread waits for jobs, and counts a hash when it is done with it.
    Console,
}

/// How far a round has come.
#[derive(Clone, Copy, Debug, PartialEq, Eq, Structural)]
pub enum RoundPhase {
    /// Nothing was done yet.
    Begin,
    /// The number of announced jobs is being read.
    Opening,
    /// Whether the miner shuts down is being read.
    Waiting,
    /// A job is being looked for.
    Looking,
    /// The number of announced jobs is being read again.
    Syncing,
    /// The thread sleeps because its job is not the current one.
    Resting,
    /// The job is being attempted.
    Trying,
    /// The hash is being counted. So many are to be reported, if a report is due.
    Counting(Option<u64>),
    /// The hashes are being reported.
    Reporting,
    /// The hash meets the target, and the number of announced jobs is being read.
    Claiming,
    /// The block is being handed in.
    Submitting,
}

/// What is done next.
#[derive(Clone, Copy, Debug, PartialEq, Eq, Structural)]
pub enum RoundAction {
    /// Read the number of announced jobs.
    ReadJobId,
    /// Read whether the miner shuts down.
    ReadShutdown,
    /// Look for a job.
    Look,
    /// Sleep for so many milliseconds.
    Pause(u64),
    /// Attempt the job.
    Attempt,
    /// Count a hash.
    Count,
    /// Report so many hashes.
    Report(u64),
    /// Hand in the block, which is a submission while so many jobs have been announced.
    Submit(u64),
    /// The round is over.
    Finish,
    /// The round is over, and the thread cannot go on.
    Stop(StopReason),
}

/// What came of what was done.
#[derive(Clone, Copy, Debug, PartialEq, Eq, Structural)]
pub enum RoundEvent {
    /// It was done.
    Done,
    /// So many jobs have been announced.
    JobId(u64),
    /// The miner shuts down, or does not.
    Shutdown(bool),
    /// The thread has taken a job.
    Taken,
    /// There was no job to take.
    Missed,
    /// No job will come any more.
    Closed,
    /// The job was attempted. So many hashes are to be reported, if a report is due.
    Attempted(Option<u64>),
}

impl RoundPhase {
    /// Whether `event` is what the round waits for.
    pub open spec fn expects(self, event: RoundEvent) -> bool {
        match self {
            RoundPhase::Opening | RoundPhase::Syncing | RoundPhase::Claiming => event is JobId,
            RoundPhase::Waiting => event is Shutdown,
            RoundPhase::Looking => event is Taken || event is Missed || event is Closed,
            RoundPhase::Trying => event is Attempted,
            _ => event is Done,
        }
    }

    /// Whether what comes next may depend on how the hash of the job compares with its target.
    pub open spec fn judges(self, front: FrontEnd) -> bool {
        match front {
            FrontEnd::Dashboard => self == RoundPhase::Counting(None) || self is Reporting || self
                is Claiming,
            FrontEnd::Console => self is Trying || self is Reporting || self is Claiming,
        }
    }
}

/// How a thread that needs a job goes on.
pub open spec fn seeking(front: FrontEnd) -> (RoundPhase, RoundAction) {
    match front {
        FrontEnd::Dashboard => (RoundPhase::Waiting, RoundAction::ReadShutdown),
        FrontEnd::Console => (RoundPhase::Looking, RoundAction::Look),
    }
}

/// How a thread that is done with a hash goes on.
pub open spec fn closing(front: FrontEnd) -> (RoundPhase, RoundAction) {
    match front {
        FrontEnd::Dashboard => (RoundPhase::Begin, RoundAction::Finish),
        FrontEnd::Console => (RoundPhase::Counting(None), RoundAction::Count),
    }
}

/// How a thread goes on that holds a hash against the target.
pub open spec fn judging(front: FrontEnd, thread: ThreadModel) -> (RoundPhase, RoundAction) {
    if thread.qualifies() {
        (RoundPhase::Claiming, RoundAction::ReadJobId)
    } else {
        closing(front)
    }
}

/// How a round goes on after an event that it waited for.
pub open spec fn next_step(
    front: FrontEnd,
    thread: ThreadModel,
    phase: RoundPhase,
    event: RoundEvent,
) -> (RoundPhase, RoundAction) {
    match (phase, event) {
        (RoundPhase::Begin, _) => (RoundPhase::Opening, RoundAction::ReadJobId),
        (RoundPhase::Opening, RoundEvent::JobId(global)) => if thread.needs_job(global) {
            seeking(front)
        } else {
            (RoundPhase::Syncing, RoundAction::ReadJobId)
        },
        (RoundPhase::Waiting, RoundEvent::Shutdown(true)) => (
            RoundPhase::Begin,
            RoundAction::Stop(StopReason::Shutdown),
        ),
        (RoundPhase::Waiting, RoundEvent::Shutdown(false)) => (
            RoundPhase::Looking,
            RoundAction::Look,
        ),
        (RoundPhase::Looking, RoundEvent::Taken) => (
            RoundPhase::Syncing,
            RoundAction::ReadJobId,
        ),
        (RoundPhase::Looking, RoundEvent::Missed) => seeking(front),
        (RoundPhase::Looking, RoundEvent::Closed) => (
            RoundPhase::Begin,
            RoundAction::Stop(StopReason::ChannelClosed),
        ),
        (RoundPhase::Syncing, RoundEvent::JobId(global)) => match thread.mine_step(global) {
            MineStep::Attempt => (RoundPhase::Trying, RoundAction::Attempt),
            MineStep::Pause(millis) => (RoundPhase::Resting, RoundAction::Pause(millis)),
        },
        (RoundPhase::Trying, RoundEvent::Attempted(report)) => match front {
            FrontEnd::Dashboard => (RoundPhase::Counting(report), RoundAction::Count),
            FrontEnd::Console => judging(front, thread),
        },
        (RoundPhase::Counting(Some(hashes)), _) => (
            RoundPhase::Reporting,
            RoundAction::Report(hashes),
        ),
        (RoundPhase::Counting(None), _) => match front {
            FrontEnd::Dashboard => judging(front, thread),
            FrontEnd::Console => (RoundPhase::Begin, RoundAction::Finish),
        },
        (RoundPhase::Reporting, _) => judging(front, thread),
        (RoundPhase::Claiming, RoundEvent::JobId(global)) => if thread.submits(global) {
            (RoundPhase::Submitting, RoundAction::Submit(global))
        } else {
            closing(front)
        },
        (RoundPhase::Submitting, _) => closing(front),
        _ => (RoundPhase::Begin, RoundAction::Finish),
    }
}

impl FrontEnd {
    /// How a thread that needs a job goes on.
    fn seek(self) -> (r: (RoundPhase, RoundAction))
        ensures
            r == seeking(self),
    {
        match self {
            FrontEnd::Dashboard => (RoundPhase::Waiting, RoundAction::ReadShutdown),
            FrontEnd::Console => (RoundPhase::Looking, RoundAction::Look),
        }
    }

    /// How a thread that is done with a hash goes on.
    fn close(self) -> (r: (RoundPhase, RoundAction))
        ensures
            r == closing(self),
    {
        match self {
            FrontEnd::Dashboard => (RoundPhase::Begin, RoundAction::Finish),
            FrontEnd::Console => (RoundPhase::Counting(None), RoundAction::Count),
        }
    }
}

impl MiningThread {
    /// How the thread goes on that holds its hash against the target. Each front end compares in
    /// its own way, with the same result.
    fn judge(&self, front: FrontEnd) -> (r: (RoundPhase, RoundAction))
        requires
            self@.has_target(),
        ensures
            r == judging(front, self@),
    {
        let met: bool = match front {
            FrontEnd::Dashboard => self.qualifies(),
            FrontEnd::Console => self.outdoes_target(),
        };
        if met {
            (RoundPhase::Claiming, RoundAction::ReadJobId)
        } else {
            front.close()
        }
    }

    /// Goes on with a round after what it asked for was done.
    pub fn advance(&self, front: FrontEnd, phase: RoundPhase, event: RoundEvent) -> (r: (
        RoundPhase,
        RoundAction,
    ))
        requires
            phase.expects(event),
            phase.judges(front) ==> self@.has_target(),
        ensures
            r == next_step(front, self@, phase, event),
    {
        match (phase, event) {
            (RoundPhase::Begin, _) => (RoundPhase::Opening, RoundAction::ReadJobId),
            (RoundPhase::Opening, RoundEvent::JobId(global)) => {
                if self.awaits_job(global) {
                    front.seek()
                } else {
                    (RoundPhase::Syncing, RoundAction::ReadJobId)
                }
            },
            (RoundPhase::Waiting, RoundEvent::Shutdown(shutdown)) => {
                if shutdown {
                    (RoundPhase::Begin, RoundAction::Stop(StopReason::Shutdown))
                } else {
                    (RoundPhase::Looking, RoundAction::Look)
                }
            },
            (RoundPhase::Looking, RoundEvent::Taken) => (
                RoundPhase::Syncing,
                RoundAction::ReadJobId,
            ),
            (RoundPhase::Looking, RoundEvent::Missed) => front.seek(),
            (RoundPhase::Looking, RoundEvent::Closed) => (
                RoundPhase::Begin,
                RoundAction::Stop(StopReason::ChannelClosed),
            ),
            (RoundPhase::Syncing, RoundEvent::JobId(global)) => match self.mine_step(global) {
                MineStep::Attempt => (RoundPhase::Trying, RoundAction::Attempt),
                MineStep::Pause(millis) => (RoundPhase::Resting, RoundAction::Pause(millis)),
            },
            (RoundPhase::Trying, RoundEvent::Attempted(report)) => match front {
                FrontEnd::Dashboard => (RoundPhase::Counting(report), RoundAction::Count),
                FrontEnd::Console => self.judge(front),
            },
            (RoundPhase::Counting(Some(hashes)), _) => (
                RoundPhase::Reporting,
                RoundAction::Report(hashes),
            ),
            (RoundPhase::Counting(None), _) => match front {
                FrontEnd::Dashboard => self.judge(front),
                FrontEnd::Console => (RoundPhase::Begin, RoundAction::Finish),
            },
            (RoundPhase::Reporting, _) => self.judge(front),
            (RoundPhase::Claiming, RoundEvent::JobId(global)) => {
                if self.is_submission(global) {
                    (RoundPhase::Submitting, RoundAction::Submit(global))
                } else {
                    front.close()
                }
            },
            (RoundPhase::Submitting, _) => front.close(),
            _ => (RoundPhase::Begin, RoundAction::Finish),
        }
    }
}

/// What a round was told, and the thread as it then was.
pub struct RoundInput {
    pub thread: ThreadModel,
    pub event: RoundEvent,
}

/// How far a thread has come that was told this, from the start of a round on, through as many
/// rounds as it takes, and what it was last asked to do.
pub open spec fn progress(front: FrontEnd, inputs: Seq<RoundInput>) -> (RoundPhase, RoundAction)
    decreases inputs.len(),
{
    if inputs.len() == 0 {
        (RoundPhase::Begin, RoundAction::Finish)
    } else {
        next_step(
            front,
            inputs.last().thread,
            progress(front, inputs.drop_last()).0,
            inputs.last().event,
        )
    }
}

/// Whether everything that was told is what was waited for.
pub open spec fn is_dialogue(front: FrontEnd, inputs: Seq<RoundInput>) -> bool
    decreases inputs.len(),
{
    inputs.len() == 0 || {
        &&& is_dialogue(front, inputs.drop_last())
        &&& progress(front, inputs.drop_last()).0.expects(inputs.last().event)
    }
}

/// How often it was asked to attempt the job.
pub open spec fn attempts(front: FrontEnd, inputs: Seq<RoundInput>) -> int
    decreases inputs.len(),
{
    if inputs.len() == 0 {
        0
    } else {
        attempts(front, inputs.drop_last()) + if progress(front, inputs).1 is Attempt {
            1int
        } else {
            0
        }
    }
}

/// How often it was asked to count a hash.
pub open spec fn counts(front: FrontEnd, inputs: Seq<RoundInput>) -> int
    decreases inputs.len(),
{
    if inputs.len() == 0 {
        0
    } else {
        counts(front, inputs.drop_last()) + if progress(front, inputs).1 is Count {
            1int
        } else {
            0
        }
    }
}

/// How often it was asked to hand in a block.
pub open spec fn submissions(front: FrontEnd, inputs: Seq<RoundInput>) -> int
    decreases inputs.len(),
{
    if inputs.len() == 0 {
        0
    } else {
        submissions(front, inputs.drop_last()) + if progress(front, inputs).1 is Submit {
            1int
        } else {
            0
        }
    }
}

/// Whether a hash was computed that is not counted yet.
pub open spec fn uncounted(front: FrontEnd, phase: RoundPhase) -> bool {
    phase is Trying || front == FrontEnd::Console && (phase is Claiming || phase is Submitting)
}

/// Whether a hash was computed that may still be handed in.
pub open spec fn unjudged(front: FrontEnd, phase: RoundPhase) -> bool {
    ||| phase is Trying
    ||| phase is Claiming
    ||| front == FrontEnd::Dashboard && (phase is Counting || phase is Reporting)
}

/// Every attempt is counted exactly once: between rounds, as many hashes were counted as attempts
/// were made, and within a round at most the one at hand is missing.
pub proof fn law_every_attempt_is_counted_once(front: FrontEnd, inputs: Seq<RoundInput>)
    requires
        is_dialogue(front, inputs),
    ensures
        attempts(front, inputs) == counts(front, inputs) + if uncounted(
            front,
            progress(front, inputs).0,
        ) {
            1int
        } else {
            0
        },
        progress(front, inputs).0 is Begin ==> attempts(front, inputs) == counts(front, inputs),
        front == FrontEnd::Console ==> !(progress(front, inputs).0 is Reporting) && (progress(
            front,
            inputs,
        ).0 is Counting ==> progress(front, inputs).0 == RoundPhase::Counting(None)),
    decreases inputs.len(),
{
    if inputs.len() > 0 {
        law_every_attempt_is_counted_once(front, inputs.drop_last());
    }
}

/// A block is handed in at most once for each attempt, and only after it.
pub proof fn law_each_attempt_is_handed_in_once_at_most(front: FrontEnd, inputs: Seq<RoundInput>)
    requires
        is_dialogue(front, inputs),
    ensures
        0 <= submissions(front, inputs),
        submissions(front, inputs) + (if unjudged(front, progress(front, inputs).0) {
            1int
        } else {
            0
        }) <= attempts(front, inputs),
    decreases inputs.len(),
{
    if inputs.len() > 0 {
        law_each_attempt_is_handed_in_once_at_most(front, inputs.drop_last());
        law_every_attempt_is_counted_once(front, inputs.drop_last());
    }
}

/// A thread attempts a job only when it has just read that the job is the current one, and hands a
/// block in only when it has just read so and the hash meets the target.
pub proof fn law_only_the_current_job_is_worked_on(
    front: FrontEnd,
    thread: ThreadModel,
    phase: RoundPhase,
    event: RoundEvent,
)
    requires
        phase.expects(event),
    ensures
        next_step(front, thread, phase, event).1 is Attempt ==> event == RoundEvent::JobId(
            thread.local_job_id,
        ),
        next_step(front, thread, phase, event).1 is Submit ==> {
            &&& event == RoundEvent::JobId(thread.local_job_id)
            &&& next_step(front, thread, phase, event).1 == RoundAction::Submit(
                thread.local_job_id,
            )
            &&& thread.submits(thread.local_job_id)
        },
{
}

} // verus!
