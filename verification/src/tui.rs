//! The dashboard: what it remembers, and what it shows of it.

use std::collections::VecDeque;
use vstd::prelude::*;
use vstd::string::*;

use crate::outside::{clock_label, clock_millis, is_time_of_day, Heard, LATEST_MILLI};
use crate::stats::StatEvent;
use crate::text::{decimal, push_decimal};

verus! {

/// How many messages the event log keeps.
pub const MAX_EVENTS: usize = 100;

/// How many points the hash rate graph shows.
pub const GRAPH_POINTS: usize = 60;

/// For how long an accepted share counts towards the estimate, in nanoseconds.
pub const SHARE_WINDOW: u128 = 600_000_000_000;

/// What the dashboard remembers. `R` is the number type of the hash rate.
pub struct TuiState<R> {
    pub current_hashrate: R,
    /// When a hash rate was measured, and what it was; the oldest first.
    pub hashrate_history: VecDeque<(R, R)>,
    pub accepted_count: u64,
    pub rejected_count: u64,
    /// The hash rate of each thread.
    pub thread_hashes: Vec<R>,
    /// When each thread last reported, in milliseconds since the epoch.
    pub thread_hashes_last_update: Vec<u64>,
    /// The event log, the newest message first.
    pub events: VecDeque<String>,
    pub current_job_id: u64,
    pub is_pool: bool,
    /// When the recent shares were accepted, in nanoseconds since the start; the oldest first.
    pub share_timestamps: VecDeque<u128>,
    /// What the clocks have said to the dashboard.
    pub heard: Heard,
}

/// The mathematical value of a [`TuiState`], but for what it has heard.
#[verifier::ext_equal]
pub struct TuiModel<R> {
    pub current_hashrate: R,
    pub hashrate_history: Seq<(R, R)>,
    pub accepted_count: u64,
    pub rejected_count: u64,
    pub thread_hashes: Seq<R>,
    pub last_updates: Seq<u64>,
    pub events: Seq<Seq<char>>,
    pub current_job_id: u64,
    pub is_pool: bool,
    pub shares: Seq<u128>,
}

/// The texts of these messages.
pub open spec fn messages(events: Seq<String>) -> Seq<Seq<char>> {
    events.map_values(|e: String| e@)
}

impl<R> View for TuiState<R> {
    type V = TuiModel<R>;

    open spec fn view(&self) -> TuiModel<R> {
        TuiModel {
            current_hashrate: self.current_hashrate,
            hashrate_history: self.hashrate_history@,
            accepted_count: self.accepted_count,
            rejected_count: self.rejected_count,
            thread_hashes: self.thread_hashes@,
            last_updates: self.thread_hashes_last_update@,
            events: messages(self.events@),
            current_job_id: self.current_job_id,
            is_pool: self.is_pool,
            shares: self.share_timestamps@,
        }
    }
}

/// What the clocks say when an event arrives.
#[derive(Debug)]
pub struct Reading<R> {
    /// The time since the start, in the number type of the graph.
    pub elapsed: R,
    /// The time since the start, in nanoseconds.
    pub instant: u128,
    /// Milliseconds since the epoch.
    pub millis: u64,
    /// Hours, minutes and seconds.
    pub label: String,
}

/// A hash rate to be computed: so many hashes in so many milliseconds.
#[derive(Clone, Copy, Debug, PartialEq, Eq, Structural)]
pub struct RateQuery {
    pub thread_id: usize,
    pub hashes: u64,
    pub elapsed_millis: u64,
}

/// What is left to do after an event was taken in.
#[derive(Clone, Copy, Debug, PartialEq, Eq, Structural)]
pub enum Applied {
    /// Nothing.
    Done,
    /// Compute this rate and store it.
    Rate(RateQuery),
    /// The event could not be taken in: a counter is full, or the clock ran backwards.
    Refused,
}

/// A message as the event log shows it.
pub open spec fn event_line(label: Seq<char>, event: Seq<char>) -> Seq<char> {
    "["@ + label + "] "@ + event
}

/// The first `limit` elements.
pub open spec fn first_of<T>(s: Seq<T>, limit: int) -> Seq<T> {
    if s.len() > limit {
        s.take(limit)
    } else {
        s
    }
}

/// The last `limit` elements.
pub open spec fn last_of<T>(s: Seq<T>, limit: int) -> Seq<T> {
    if s.len() > limit {
        s.skip(s.len() - limit)
    } else {
        s
    }
}

/// Whether a share that was accepted at `at` no longer counts at `now`.
pub open spec fn stale(at: u128, now: u128) -> bool {
    now - at > SHARE_WINDOW
}

/// The shares without those at the front that no longer count at `now`.
pub open spec fn recent(shares: Seq<u128>, now: u128) -> Seq<u128>
    decreases shares.len(),
{
    if shares.len() > 0 && stale(shares[0], now) {
        recent(shares.skip(1), now)
    } else {
        shares
    }
}

impl<R> TuiModel<R> {
    /// The log and the graph are bounded, and every thread has a rate and a time of its last
    /// report.
    pub open spec fn wf(self) -> bool {
        &&& self.events.len() <= MAX_EVENTS
        &&& self.hashrate_history.len() <= GRAPH_POINTS
        &&& self.thread_hashes.len() == self.last_updates.len()
    }

    /// With a message in the log.
    pub open spec fn with_event(self, label: Seq<char>, event: Seq<char>) -> TuiModel<R> {
        TuiModel {
            events: first_of(seq![event_line(label, event)] + self.events, MAX_EVENTS as int),
            ..self
        }
    }

    /// With a measured hash rate.
    pub open spec fn with_hashrate(self, rate: R, elapsed: R) -> TuiModel<R> {
        TuiModel {
            current_hashrate: rate,
            hashrate_history: last_of(
                self.hashrate_history.push((elapsed, rate)),
                GRAPH_POINTS as int,
            ),
            ..self
        }
    }

    /// With a share that was accepted at `now`.
    pub open spec fn with_share(self, now: u128) -> TuiModel<R> {
        TuiModel { shares: recent(self.shares.push(now), now), ..self }
    }

    /// With one more accepted share or block.
    pub open spec fn with_accepted(self, now: u128) -> TuiModel<R> {
        TuiModel { accepted_count: (self.accepted_count + 1) as u64, ..self }.with_share(now)
    }

    /// With one more refused share or block.
    pub open spec fn with_rejected(self) -> TuiModel<R> {
        TuiModel { rejected_count: (self.rejected_count + 1) as u64, ..self }
    }

    /// Whether an event can be taken in when the clocks say so.
    pub open spec fn can_apply(self, event: StatEvent<R>, reading: Reading<R>) -> bool {
        match event {
            StatEvent::ThreadHash(thread_id, _) => thread_id < self.last_updates.len()
                ==> self.last_updates[thread_id as int] <= reading.millis,
            StatEvent::ShareAccepted | StatEvent::BlockAccepted => self.accepted_count < u64::MAX,
            StatEvent::ShareRejected | StatEvent::BlockRejected => self.rejected_count < u64::MAX,
            _ => true,
        }
    }

    /// What an event leaves, and the rate that is left to compute, if any.
    pub open spec fn applied(self, event: StatEvent<R>, reading: Reading<R>) -> (
        TuiModel<R>,
        Option<RateQuery>,
    ) {
        match event {
            StatEvent::HashRate(rate) => (self.with_hashrate(rate, reading.elapsed), None),
            StatEvent::ThreadHash(thread_id, hashes) => if thread_id < self.last_updates.len() {
                (
                    TuiModel {
                        last_updates: self.last_updates.update(thread_id as int, reading.millis),
                        ..self
                    },
                    Some(
                        RateQuery {
                            thread_id,
                            hashes,
                            elapsed_millis: (reading.millis - self.last_updates[thread_id as int])
                                as u64,
                        },
                    ),
                )
            } else {
                (self, None)
            },
            StatEvent::ShareAccepted => (self.with_accepted(reading.instant), None),
            StatEvent::BlockAccepted => (self.with_accepted(reading.instant), None),
            StatEvent::ShareRejected => (self.with_rejected(), None),
            StatEvent::BlockRejected => (self.with_rejected(), None),
            StatEvent::NewJob(job_id) => (
                TuiModel { current_job_id: job_id, ..self }.with_event(
                    reading.label@,
                    new_job_text(job_id),
                ),
                None,
            ),
            StatEvent::Event(message) => (self.with_event(reading.label@, message@), None),
        }
    }
}

/// What is logged when work on a new job begins.
pub open spec fn new_job_text(job_id: u64) -> Seq<char> {
    "New job received (ID: "@ + decimal(job_id as nat) + ")"@
}

/// What taking in an event did when the clocks said so: nothing where it could not be taken in.
pub open spec fn apply_outcome<R>(
    before: TuiModel<R>,
    event: StatEvent<R>,
    reading: Reading<R>,
    after: TuiModel<R>,
    r: Applied,
) -> bool {
    if before.can_apply(event, reading) {
        &&& after == before.applied(event, reading).0
        &&& r == (match before.applied(event, reading).1 {
            Some(query) => Applied::Rate(query),
            None => Applied::Done,
        })
    } else {
        after == before && r == Applied::Refused
    }
}

/// A message as the event log and the log file show it.
pub fn log_line(label: &str, event: &str) -> (r: String)
    ensures
        r@ == event_line(label@, event@),
{
    let mut text = String::from_str("[");
    text.append(label);
    text.append("] ");
    text.append(event);
    text
}

impl<R: Copy> TuiState<R> {
    /// An empty dashboard for so many threads. `zero` is the rate of a thread that has not
    /// reported.
    pub fn new(thread_count: usize, is_pool: bool, zero: R) -> (r: TuiState<R>)
        ensures
            r@.wf(),
            r@ == (TuiModel {
                current_hashrate: zero,
                hashrate_history: Seq::empty(),
                accepted_count: 0,
                rejected_count: 0,
                thread_hashes: Seq::new(thread_count as nat, |i: int| zero),
                last_updates: Seq::new(thread_count as nat, |i: int| 0u64),
                events: Seq::empty(),
                current_job_id: 0,
                is_pool,
                shares: Seq::empty(),
            }),
    {
        let mut thread_hashes: Vec<R> = Vec::new();
        let mut last_updates: Vec<u64> = Vec::new();
        let mut i: usize = 0;
        while i < thread_count
            invariant
                0 <= i <= thread_count,
                thread_hashes@ =~= Seq::new(i as nat, |k: int| zero),
                last_updates@ =~= Seq::new(i as nat, |k: int| 0u64),
            decreases thread_count - i,
        {
            thread_hashes.push(zero);
            last_updates.push(0);
            i += 1;
        }
        let r = TuiState {
            current_hashrate: zero,
            hashrate_history: VecDeque::with_capacity(GRAPH_POINTS),
            accepted_count: 0,
            rejected_count: 0,
            thread_hashes,
            thread_hashes_last_update: last_updates,
            events: VecDeque::with_capacity(MAX_EVENTS),
            current_job_id: 0,
            is_pool,
            share_timestamps: VecDeque::with_capacity(500),
            heard: Heard::nothing(),
        };
        assert(messages(r.events@) =~= Seq::empty());
        r
    }

    /// Puts a message on top of the log, under a time, and drops the oldest where there are too
    /// many.
    pub fn add_event_at(&mut self, label: &str, event: &str)
        requires
            old(self)@.wf(),
        ensures
            final(self)@.wf(),
            final(self)@ == old(self)@.with_event(label@, event@),
            final(self).heard == old(self).heard,
    {
        let ghost before = self.events@;
        let line = log_line(label, event);
        self.events.push_front(line);
        let ghost pushed = self.events@;
        assert(messages(pushed) =~= seq![event_line(label@, event@)] + messages(before));
        if self.events.len() > MAX_EVENTS {
            self.events.pop_back();
            assert(messages(self.events@) =~= messages(pushed).take(MAX_EVENTS as int));
        }
    }

    /// Puts a message on top of the log, under the time of day in hours, minutes and seconds, as it
    /// is read in the call.
    pub fn add_event(&mut self, event: &str)
        requires
            old(self)@.wf(),
        ensures
            final(self)@.wf(),
            exists|label: Seq<char>|
                is_time_of_day(label) && final(self)@ == #[trigger] old(self)@.with_event(
                    label,
                    event@,
                ),
            ({
                let label = final(self).heard.labels().last();
                &&& final(self).heard.labels() == old(self).heard.labels().push(label)
                &&& final(self)@ == old(self)@.with_event(label, event@)
            }),
    {
        let label = clock_label(&mut self.heard);
        self.add_event_at(label.as_str(), event);
    }

    /// Takes in a measured hash rate, and drops the oldest where there are too many.
    pub fn update_hashrate(&mut self, rate: R, elapsed: R)
        requires
            old(self)@.wf(),
        ensures
            final(self)@.wf(),
            final(self)@ == old(self)@.with_hashrate(rate, elapsed),
            final(self).heard == old(self).heard,
    {
        self.current_hashrate = rate;
        self.hashrate_history.push_back((elapsed, rate));
        let ghost pushed = self.hashrate_history@;
        if self.hashrate_history.len() > GRAPH_POINTS {
            self.hashrate_history.pop_front();
            assert(self.hashrate_history@ =~= pushed.skip(pushed.len() - GRAPH_POINTS));
        }
    }

    /// Takes in a share that was accepted at `now`, and forgets those that no longer count.
    pub fn record_share(&mut self, now: u128)
        ensures
            final(self)@ == old(self)@.with_share(now),
            final(self).heard == old(self).heard,
    {
        self.share_timestamps.push_back(now);
        let ghost all = self.share_timestamps@;
        while self.share_timestamps.len() > 0
            invariant_except_break
                recent(self.share_timestamps@, now) == recent(all, now),
                self@ == (TuiModel { shares: self.share_timestamps@, ..old(self)@ }),
                self.heard == old(self).heard,
            ensures
                self.share_timestamps@ == recent(all, now),
                self@ == (TuiModel { shares: self.share_timestamps@, ..old(self)@ }),
                self.heard == old(self).heard,
            decreases self.share_timestamps@.len(),
        {
            let front: u128 = self.share_timestamps[0];
            if now > front && now - front > SHARE_WINDOW {
                let ghost held = self.share_timestamps@;
                self.share_timestamps.pop_front();
                assert(self.share_timestamps@ =~= held.skip(1));
            } else {
                break;
            }
        }
    }

    /// How many shares count, and how many nanoseconds lie between the first and the last of them,
    /// where an hourly rate can be estimated from that: there are two or more, and some time lies
    /// between.
    pub fn share_span(&self) -> (r: Option<(usize, u128)>)
        ensures
            r == (if self@.shares.len() < 2 || self@.shares.last() <= self@.shares[0] {
                None
            } else {
                Some(
                    (
                        self@.shares.len() as usize,
                        (self@.shares.last() - self@.shares[0]) as u128,
                    ),
                )
            }),
    {
        let count: usize = self.share_timestamps.len();
        if count < 2 {
            return None;
        }
        let first: u128 = self.share_timestamps[0];
        let last: u128 = self.share_timestamps[count - 1];
        if last <= first {
            return None;
        }
        Some((count, last - first))
    }

    /// Whether an event can be taken in when the clocks say so.
    pub fn can_apply(&self, event: &StatEvent<R>, reading: &Reading<R>) -> (r: bool)
        requires
            self@.wf(),
        ensures
            r == self@.can_apply(*event, *reading),
    {
        match event {
            StatEvent::ThreadHash(thread_id, _) => {
                *thread_id >= self.thread_hashes_last_update.len()
                    || self.thread_hashes_last_update[*thread_id] <= reading.millis
            },
            StatEvent::ShareAccepted => self.accepted_count < u64::MAX,
            StatEvent::BlockAccepted => self.accepted_count < u64::MAX,
            StatEvent::ShareRejected => self.rejected_count < u64::MAX,
            StatEvent::BlockRejected => self.rejected_count < u64::MAX,
            _ => true,
        }
    }

    /// Takes in an event when the clocks say so. Returns the rate that is left to compute, if any.
    pub fn apply_at(&mut self, event: StatEvent<R>, reading: &Reading<R>) -> (r: Option<RateQuery>)
        requires
            old(self)@.wf(),
            old(self)@.can_apply(event, *reading),
        ensures
            final(self)@.wf(),
            final(self)@ == old(self)@.applied(event, *reading).0,
            r == old(self)@.applied(event, *reading).1,
            final(self).heard == old(self).heard,
    {
        match event {
            StatEvent::HashRate(rate) => {
                self.update_hashrate(rate, reading.elapsed);
                None
            },
            StatEvent::ThreadHash(thread_id, hashes) => {
                if thread_id < self.thread_hashes_last_update.len() {
                    let elapsed_millis: u64 = reading.millis
                        - self.thread_hashes_last_update[thread_id];
                    self.thread_hashes_last_update.set(thread_id, reading.millis);
                    Some(RateQuery { thread_id, hashes, elapsed_millis })
                } else {
                    None
                }
            },
            StatEvent::ShareAccepted => {
                self.accepted_count = self.accepted_count + 1;
                self.record_share(reading.instant);
                None
            },
            StatEvent::BlockAccepted => {
                self.accepted_count = self.accepted_count + 1;
                self.record_share(reading.instant);
                None
            },
            StatEvent::ShareRejected => {
                self.rejected_count = self.rejected_count + 1;
                None
            },
            StatEvent::BlockRejected => {
                self.rejected_count = self.rejected_count + 1;
                None
            },
            StatEvent::NewJob(job_id) => {
                self.current_job_id = job_id;
                let mut text = String::from_str("New job received (ID: ");
                push_decimal(&mut text, job_id);
                text.append(")");
                self.add_event_at(reading.label.as_str(), text.as_str());
                None
            },
            StatEvent::Event(message) => {
                self.add_event_at(reading.label.as_str(), message.as_str());
                None
            },
        }
    }

    /// Takes in an event now, `elapsed` and `instant` after the start, at the millisecond and the
    /// time of day that are read in the call. Changes nothing where it cannot be taken in.
    pub fn apply(&mut self, event: StatEvent<R>, elapsed: R, instant: u128) -> (r: Applied)
        requires
            old(self)@.wf(),
        ensures
            final(self)@.wf(),
            exists|reading: Reading<R>|
                {
                    &&& reading.elapsed == elapsed
                    &&& reading.instant == instant
                    &&& reading.millis <= LATEST_MILLI
                    &&& is_time_of_day(reading.label@)
                    &&& final(self).heard.millis() == old(self).heard.millis().push(reading.millis)
                    &&& final(self).heard.labels() == old(self).heard.labels().push(reading.label@)
                    &&& #[trigger] apply_outcome(old(self)@, event, reading, final(self)@, r)
                },
    {
        let millis: u64 = clock_millis(&mut self.heard);
        let label = clock_label(&mut self.heard);
        let reading = Reading { elapsed, instant, millis, label };
        let ghost before = self@;
        if self.can_apply(&event, &reading) {
            let r = match self.apply_at(event, &reading) {
                Some(query) => Applied::Rate(query),
                None => Applied::Done,
            };
            assert(apply_outcome(before, event, reading, self@, r));
            r
        } else {
            assert(apply_outcome(before, event, reading, self@, Applied::Refused));
            Applied::Refused
        }
    }

    /// Stores the rate of a thread.
    pub fn set_thread_rate(&mut self, thread_id: usize, rate: R)
        requires
            old(self)@.wf(),
            thread_id < old(self)@.thread_hashes.len(),
        ensures
            final(self)@.wf(),
            final(self)@ == (TuiModel {
                thread_hashes: old(self)@.thread_hashes.update(thread_id as int, rate),
                ..old(self)@
            }),
            final(self).heard == old(self).heard,
    {
        self.thread_hashes.set(thread_id, rate);
    }

    /// The times at which the graph begins and ends, if there is anything to show.
    pub fn graph_span(&self) -> (r: Option<(R, R)>)
        ensures
            r == (if self@.hashrate_history.len() == 0 {
                None
            } else {
                Some((self@.hashrate_history[0].0, self@.hashrate_history.last().0))
            }),
    {
        let count: usize = self.hashrate_history.len();
        if count == 0 {
            None
        } else {
            Some((self.hashrate_history[0].0, self.hashrate_history[count - 1].0))
        }
    }
}

/// The newest message is on top, the others stand below it in their order, and only the oldest is
/// dropped, when the log is full.
pub proof fn law_newest_event_on_top<R>(state: TuiModel<R>, label: Seq<char>, event: Seq<char>)
    requires
        state.wf(),
    ensures
        state.with_event(label, event).wf(),
        state.with_event(label, event).events[0] == event_line(label, event),
        state.events.len() < MAX_EVENTS ==> state.with_event(label, event).events.skip(1)
            == state.events,
        state.events.len() == MAX_EVENTS ==> state.with_event(label, event).events.skip(1)
            == state.events.drop_last(),
{
    let after = state.with_event(label, event).events;
    let pushed = seq![event_line(label, event)] + state.events;
    if state.events.len() < MAX_EVENTS {
        assert(after.skip(1) =~= state.events);
    } else {
        assert(pushed.len() == MAX_EVENTS + 1);
        assert(after =~= pushed.take(MAX_EVENTS as int));
        assert(after.skip(1) =~= state.events.drop_last());
    }
}

/// The newest measurement is at the end of the graph, and only the oldest is dropped, when the
/// graph is full.
pub proof fn law_newest_rate_at_the_end<R>(state: TuiModel<R>, rate: R, elapsed: R)
    requires
        state.wf(),
    ensures
        state.with_hashrate(rate, elapsed).wf(),
        state.with_hashrate(rate, elapsed).current_hashrate == rate,
        state.with_hashrate(rate, elapsed).hashrate_history.last() == (elapsed, rate),
        state.hashrate_history.len() < GRAPH_POINTS ==> state.with_hashrate(
            rate,
            elapsed,
        ).hashrate_history.drop_last() == state.hashrate_history,
        state.hashrate_history.len() == GRAPH_POINTS ==> state.with_hashrate(
            rate,
            elapsed,
        ).hashrate_history.drop_last() == state.hashrate_history.skip(1),
{
    let after = state.with_hashrate(rate, elapsed).hashrate_history;
    if state.hashrate_history.len() < GRAPH_POINTS {
        assert(after.drop_last() =~= state.hashrate_history);
    } else {
        assert(after =~= state.hashrate_history.push((elapsed, rate)).skip(1));
        assert(after.drop_last() =~= state.hashrate_history.skip(1));
    }
}

/// Whether these shares were accepted in this order, none after `now`.
pub open spec fn in_order(shares: Seq<u128>, now: u128) -> bool {
    &&& forall|i: int, j: int| 0 <= i <= j < shares.len() ==> shares[i] <= shares[j]
    &&& forall|i: int| 0 <= i < shares.len() ==> shares[i] <= now
}

proof fn lemma_recent(shares: Seq<u128>, now: u128)
    requires
        in_order(shares, now),
    ensures
        recent(shares, now) == shares.filter(|at: u128| !stale(at, now)),
        in_order(recent(shares, now), now),
    decreases shares.len(),
{
    let keep = |at: u128| !stale(at, now);
    if shares.len() > 0 && stale(shares[0], now) {
        let rest = shares.skip(1);
        assert(in_order(rest, now));
        lemma_recent(rest, now);
        assert(shares =~= seq![shares[0]] + rest);
        Seq::filter_distributes_over_add(seq![shares[0]], rest, keep);
        assert(seq![shares[0]].filter(keep) =~= Seq::<u128>::empty()) by {
            reveal_with_fuel(Seq::filter, 2);
            assert(seq![shares[0]].drop_last() =~= Seq::<u128>::empty());
        }
        assert(Seq::<u128>::empty() + rest.filter(keep) =~= rest.filter(keep));
    } else {
        lemma_none_stale(shares, now);
    }
}

proof fn lemma_none_stale(shares: Seq<u128>, now: u128)
    requires
        in_order(shares, now),
        shares.len() > 0 ==> !stale(shares[0], now),
    ensures
        shares.filter(|at: u128| !stale(at, now)) == shares,
    decreases shares.len(),
{
    reveal(Seq::filter);
    if shares.len() > 0 {
        assert(in_order(shares.drop_last(), now));
        lemma_none_stale(shares.drop_last(), now);
        assert(!stale(shares.last(), now));
        assert(shares.drop_last().push(shares.last()) =~= shares);
    }
}

/// With a clock that does not run backwards, the shares that are remembered after one was accepted
/// are exactly those of the last ten minutes, the new one last.
pub proof fn law_shares_of_the_window_count<R>(state: TuiModel<R>, now: u128)
    requires
        in_order(state.shares, now),
    ensures
        state.with_share(now).shares == state.shares.push(now).filter(
            |at: u128| !stale(at, now),
        ),
        in_order(state.with_share(now).shares, now),
        state.with_share(now).shares.len() > 0,
        state.with_share(now).shares.last() == now,
{
    let keep = |at: u128| !stale(at, now);
    let all = state.shares.push(now);
    assert(in_order(all, now));
    lemma_recent(all, now);
    reveal(Seq::filter);
    assert(all.drop_last() =~= state.shares);
}

/// With shares that were accepted at these moments, one after the other.
pub open spec fn with_shares_at<R>(state: TuiModel<R>, moments: Seq<u128>) -> TuiModel<R>
    decreases moments.len(),
{
    if moments.len() == 0 {
        state
    } else {
        with_shares_at(state, moments.drop_last()).with_share(moments.last())
    }
}

/// What no longer counts at `now` does not count at `later` either.
proof fn lemma_stale_stays(shares: Seq<u128>, now: u128, later: u128)
    requires
        now <= later,
    ensures
        shares.filter(|at: u128| !stale(at, now)).filter(|at: u128| !stale(at, later))
            == shares.filter(|at: u128| !stale(at, later)),
    decreases shares.len(),
{
    reveal(Seq::filter);
    if shares.len() > 0 {
        lemma_stale_stays(shares.drop_last(), now, later);
        let rest = shares.drop_last().filter(|at: u128| !stale(at, now));
        if !stale(shares.last(), now) {
            assert(rest.push(shares.last()).drop_last() =~= rest);
        }
    }
}

/// However many shares are accepted, by a clock that does not run backwards, those that are
/// remembered are exactly those of the ten minutes before the last one.
pub proof fn law_shares_of_the_window_count_over_time<R>(state: TuiModel<R>, moments: Seq<u128>)
    requires
        moments.len() > 0,
        in_order(state.shares + moments, moments.last()),
    ensures
        with_shares_at(state, moments).shares == (state.shares + moments).filter(
            |at: u128| !stale(at, moments.last()),
        ),
        in_order(with_shares_at(state, moments).shares, moments.last()),
        with_shares_at(state, moments).shares.last() == moments.last(),
    decreases moments.len(),
{
    let all = state.shares + moments;
    let now = moments.last();
    let before = moments.drop_last();
    let earlier = state.shares + before;
    let keep = |at: u128| !stale(at, now);
    assert(all.drop_last() =~= earlier);
    assert(all.last() == now);
    if before.len() == 0 {
        assert(earlier =~= state.shares);
        assert(with_shares_at(state, before) == state);
        assert(in_order(state.shares, now)) by {
            assert(forall|k: int| 0 <= k < state.shares.len() ==> all[k] == state.shares[k]);
        }
        law_shares_of_the_window_count(state, now);
        assert(state.shares.push(now) =~= all);
    } else {
        let then = before.last();
        assert(all[earlier.len() - 1] == then);
        assert(then <= now);
        assert(in_order(earlier, then)) by {
            assert(forall|k: int| 0 <= k < earlier.len() ==> all[k] == earlier[k]);
        }
        law_shares_of_the_window_count_over_time(state, before);
        let held = with_shares_at(state, before);
        assert(in_order(held.shares, now));
        law_shares_of_the_window_count(held, now);
        lemma_stale_stays(earlier, then, now);
        reveal(Seq::filter);
        assert(held.shares.push(now).drop_last() =~= held.shares);
        assert(held.shares.push(now).filter(keep) == held.shares.filter(keep).push(now));
        assert(all.filter(keep) == earlier.filter(keep).push(now));
    }
}

/// An accepted share or block raises one count by one and a refused one the other; nothing else
/// changes either.
pub proof fn law_counts<R>(state: TuiModel<R>, event: StatEvent<R>, reading: Reading<R>)
    requires
        state.can_apply(event, reading),
    ensures
        ({
            let after = state.applied(event, reading).0;
            let accepts = event is ShareAccepted || event is BlockAccepted;
            let rejects = event is ShareRejected || event is BlockRejected;
            &&& after.accepted_count == state.accepted_count + (if accepts { 1int } else { 0 })
            &&& after.rejected_count == state.rejected_count + (if rejects { 1int } else { 0 })
            &&& !accepts ==> after.shares == state.shares
            &&& after.is_pool == state.is_pool
            &&& after.thread_hashes == state.thread_hashes
        }),
{
}

/// The value of a dashboard has every field of it but what it has heard.
pub proof fn law_dashboards_are_shown_whole<R>(state: TuiState<R>)
    ensures
        state@.current_hashrate == state.current_hashrate,
        state@.hashrate_history == state.hashrate_history@,
        state@.accepted_count == state.accepted_count,
        state@.rejected_count == state.rejected_count,
        state@.thread_hashes == state.thread_hashes@,
        state@.last_updates == state.thread_hashes_last_update@,
        state@.events.len() == state.events@.len(),
        forall|i: int|
            0 <= i < state.events@.len() ==> #[trigger] state@.events[i] == state.events@[i]@,
        state@.current_job_id == state.current_job_id,
        state@.is_pool == state.is_pool,
        state@.shares == state.share_timestamps@,
{
}

/// What logging a message does, in full: it stands on top, behind its label in square brackets; the
/// others move down by one, and of more than a hundred the last is dropped. Nothing else changes.
pub proof fn law_what_logging_does<R>(state: TuiModel<R>, label: Seq<char>, event: Seq<char>)
    requires
        state.events.len() <= 100,
    ensures
        ({
            let after = state.with_event(label, event);
            &&& after.events.len() == (if state.events.len() < 100 {
                state.events.len() + 1
            } else {
                100
            })
            &&& after.events[0] == "["@ + label + "] "@ + event
            &&& forall|i: int|
                1 <= i < after.events.len() ==> #[trigger] after.events[i] == state.events[i - 1]
            &&& (TuiModel { events: state.events, ..after }) == state
        }),
{
    let after = state.with_event(label, event);
    assert((TuiModel { events: state.events, ..after }) =~= state);
}

/// What a measured hash rate does, in full: it is the current one, and stands at the end of the
/// graph with its time; of more than sixty points the first is dropped. Nothing else changes.
pub proof fn law_what_a_hash_rate_does<R>(state: TuiModel<R>, rate: R, elapsed: R)
    requires
        state.hashrate_history.len() <= 60,
    ensures
        ({
            let after = state.with_hashrate(rate, elapsed);
            let history = after.hashrate_history;
            let dropped: int = if state.hashrate_history.len() < 60 {
                0
            } else {
                1
            };
            &&& after.current_hashrate == rate
            &&& history.len() == state.hashrate_history.len() + 1 - dropped
            &&& history.last() == (elapsed, rate)
            &&& forall|i: int|
                0 <= i < history.len() - 1 ==> #[trigger] history[i]
                    == state.hashrate_history[i + dropped]
            &&& (TuiModel {
                current_hashrate: state.current_hashrate,
                hashrate_history: state.hashrate_history,
                ..after
            }) == state
        }),
{
    let after = state.with_hashrate(rate, elapsed);
    assert((TuiModel {
        current_hashrate: state.current_hashrate,
        hashrate_history: state.hashrate_history,
        ..after
    }) =~= state);
}

/// What an accepted share does to the list of shares, in full and for any clock: it stands at the
/// end; from the front, shares go as long as they are more than 600 seconds older than it, and not
/// one further. Nothing else changes.
pub proof fn law_what_a_share_does<R>(state: TuiModel<R>, now: u128)
    ensures
        ({
            let after = state.with_share(now);
            let all = state.shares.push(now);
            let gone = all.len() - after.shares.len();
            &&& 0 <= gone < all.len()
            &&& after.shares == all.skip(gone)
            &&& forall|i: int| 0 <= i < gone ==> now - #[trigger] all[i] > 600_000_000_000
            &&& now - all[gone] <= 600_000_000_000
            &&& (TuiModel { shares: state.shares, ..after }) == state
        }),
{
    lemma_recent_is_a_tail(state.shares.push(now), now);
    let after = state.with_share(now);
    assert((TuiModel { shares: state.shares, ..after }) =~= state);
}

proof fn lemma_recent_is_a_tail(shares: Seq<u128>, now: u128)
    requires
        shares.len() > 0,
        shares.last() == now,
    ensures
        ({
            let gone = shares.len() - recent(shares, now).len();
            &&& 0 <= gone < shares.len()
            &&& recent(shares, now) == shares.skip(gone)
            &&& forall|i: int| 0 <= i < gone ==> now - #[trigger] shares[i] > 600_000_000_000
            &&& now - shares[gone] <= 600_000_000_000
        }),
    decreases shares.len(),
{
    if stale(shares[0], now) {
        let rest = shares.skip(1);
        assert(rest.last() == now);
        lemma_recent_is_a_tail(rest, now);
        let gone = rest.len() - recent(rest, now).len();
        assert(shares.skip(gone + 1) =~= rest.skip(gone));
        assert forall|i: int| 0 <= i < gone + 1 implies now - #[trigger] shares[i]
            > 600_000_000_000 by {
            if i > 0 {
                assert(rest[i - 1] == shares[i]);
            }
        }
        assert(rest[gone] == shares[gone + 1]);
    } else {
        assert(shares.skip(0) =~= shares);
    }
}

/// When an event can be taken in: a count that is to be raised is not full, and the clock does not
/// stand before the last report of the thread that reports.
pub proof fn law_when_events_can_be_taken_in<R>(
    state: TuiModel<R>,
    event: StatEvent<R>,
    reading: Reading<R>,
)
    ensures
        event is ShareAccepted || event is BlockAccepted ==> (state.can_apply(event, reading)
            <==> state.accepted_count < u64::MAX),
        event is ShareRejected || event is BlockRejected ==> (state.can_apply(event, reading)
            <==> state.rejected_count < u64::MAX),
        event matches StatEvent::ThreadHash(thread_id, hashes) ==> (state.can_apply(event, reading)
            <==> (thread_id < state.last_updates.len() ==> state.last_updates[thread_id as int]
            <= reading.millis)),
        event is HashRate || event is NewJob || event is Event ==> state.can_apply(event, reading),
{
}

/// What taking in an event does, event by event.
pub proof fn law_what_events_do<R>(state: TuiModel<R>, event: StatEvent<R>, reading: Reading<R>)
    requires
        state.can_apply(event, reading),
    ensures
        event matches StatEvent::HashRate(rate) ==> state.applied(event, reading).0
            == state.with_hashrate(rate, reading.elapsed),
        event matches StatEvent::ThreadHash(thread_id, hashes) ==> {
            let known = thread_id < state.last_updates.len();
            &&& !known ==> state.applied(event, reading).0 == state
            &&& known ==> state.applied(event, reading).0 == (TuiModel {
                last_updates: state.last_updates.update(thread_id as int, reading.millis),
                ..state
            })
            &&& !known ==> state.applied(event, reading).1 is None
            &&& known ==> (state.applied(event, reading).1 matches Some(query)
                && query.thread_id == thread_id && query.hashes == hashes && query.elapsed_millis
                == reading.millis - state.last_updates[thread_id as int])
        },
        event is ShareAccepted || event is BlockAccepted ==> {
            let counted = (TuiModel {
                accepted_count: (state.accepted_count + 1) as u64,
                ..state
            });
            state.applied(event, reading).0 == counted.with_share(reading.instant)
        },
        event is ShareRejected || event is BlockRejected ==> state.applied(event, reading).0 == (
        TuiModel { rejected_count: (state.rejected_count + 1) as u64, ..state }),
        event matches StatEvent::NewJob(job_id) ==> state.applied(event, reading).0 == (TuiModel {
            current_job_id: job_id,
            ..state
        }).with_event(
            reading.label@,
            "New job received (ID: "@ + decimal(job_id as nat) + ")"@,
        ),
        event matches StatEvent::Event(message) ==> state.applied(event, reading).0
            == state.with_event(reading.label@, message@),
        !(event is ThreadHash) ==> state.applied(event, reading).1 is None,
{
}

/// Taking in an event by the clock is taking it in at what the clocks said, where that is possible;
/// otherwise nothing changes.
pub proof fn law_what_taking_in_an_event_by_the_clock_does<R>(
    before: TuiModel<R>,
    event: StatEvent<R>,
    reading: Reading<R>,
    after: TuiModel<R>,
    r: Applied,
)
    requires
        apply_outcome(before, event, reading, after, r),
    ensures
        r == Applied::Refused <==> !before.can_apply(event, reading),
        r == Applied::Refused ==> after == before,
        r != Applied::Refused ==> after == before.applied(event, reading).0,
        before.can_apply(event, reading) ==> match before.applied(event, reading).1 {
            Some(query) => r == Applied::Rate(query),
            None => r == Applied::Done,
        },
{
}

} // verus!
