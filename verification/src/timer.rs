//! A wall-clock trial timer built on two `RunningMean` accumulators.
//!
//! The timer itself never reads a clock: its caller hands every operation
//! the current reading of a monotonic clock as a plain nanosecond count.
//! That keeps the measurement logic fully verified and lets a test inject
//! any clock it likes; the thin unverified driver around the library reads
//! the real clock and converts.
//!
//! Each trial is bracketed by `start(now)` and `end(now, item_count)`.
//! `end` derives two metrics — the elapsed time of the whole trial in
//! nanoseconds and the elapsed time per item in picoseconds — and feeds
//! them into two independent accumulators, one per metric.  `avg_stats`
//! consumes the timer and returns the exact statistics snapshots of both
//! series.

use crate::stats::COUNT_LIMIT;
use crate::stats::OBS_LIMIT;
use crate::stats::RunningMean;
use crate::stats::RunningMeanStats;
use vstd::arithmetic::div_mod::lemma_div_nonincreasing;
use vstd::prelude::*;

verus! {

/// Longest trial the timer accepts, in nanoseconds (about 16.7 minutes).
/// A trial of this length scaled to picoseconds still fits below
/// `crate::stats::OBS_LIMIT`.
pub const TRIAL_NS_LIMIT: u64 = 1_000_000_000_000;

/// Misuse of the timer by its caller: these are harness bugs, reported
/// loudly rather than folded into the statistics.
#[derive(Clone, Copy, Debug, PartialEq, Eq, Structural)]
pub enum TimerError {
    /// `end` was called without a preceding `start`.
    PrecedingStartRequired,
    /// `end` was called with an item count of zero, which would make the
    /// per-item metric meaningless.
    InvalidTrialCount,
}

/// One finished trial's measurements.
#[derive(Clone, Copy, Debug, PartialEq, Eq, Structural)]
pub struct TrialSample {
    /// Elapsed wall-clock time of the trial, in nanoseconds.
    pub total_ns: u64,
    /// Elapsed time per item, in picoseconds, rounded down.
    pub per_item_ps: u64,
}

/// The statistics snapshots of the two metric series of a finished
/// benchmark scenario.
pub struct TimerReport {
    /// Statistics of the per-trial elapsed times, in nanoseconds.
    pub total: RunningMeanStats,
    /// Statistics of the per-trial per-item times, in picoseconds.
    pub iter: RunningMeanStats,
}

/// The elapsed time per item in picoseconds: the whole trial's nanoseconds,
/// scaled to picoseconds and divided evenly over the items (rounded down).
pub open spec fn per_item_picos(elapsed_ns: int, item_count: int) -> int {
    (elapsed_ns * 1000) / item_count
}

/// A trial timer: a start mark plus one accumulator for the total elapsed
/// milliseconds-scale metric and one for the per-item metric.
pub struct Timer {
    started: bool,
    start_mark: u64,
    total: RunningMean,
    iter: RunningMean,
}

impl Timer {
    /// The per-trial elapsed times recorded so far, in nanoseconds.
    pub closed spec fn total_observations(self) -> Seq<int> {
        self.total.observations()
    }

    /// The per-trial per-item times recorded so far, in picoseconds.
    pub closed spec fn iter_observations(self) -> Seq<int> {
        self.iter.observations()
    }

    /// A trial is currently being timed: `start` has been called and the
    /// matching `end` has not.
    pub closed spec fn is_started(self) -> bool {
        self.started
    }

    /// The clock reading recorded by the latest `start`.
    pub closed spec fn start_mark_spec(self) -> int {
        self.start_mark as int
    }

    /// The timer's invariant: both accumulators are well formed and have
    /// recorded the same number of trials.
    pub closed spec fn wf(self) -> bool {
        &&& self.total.wf()
        &&& self.iter.wf()
        &&& self.total.observations().len() == self.iter.observations().len()
    }

    /// A fresh timer with no recorded trials and no pending `start`.
    pub fn new() -> (r: Self)
        ensures
            r.wf(),
            !r.is_started(),
            r.total_observations() == Seq::<int>::empty(),
            r.iter_observations() == Seq::<int>::empty(),
    {
        Timer { started: false, start_mark: 0, total: RunningMean::new(), iter: RunningMean::new() }
    }

    /// How many trials have been recorded.
    pub fn trials(&self) -> (r: u64)
        requires
            self.wf(),
        ensures
            r == self.total_observations().len(),
    {
        self.total.count()
    }

    /// Records the given clock reading as the start of a trial.  Calling it
    /// again before `end` simply overwrites the mark.
    pub fn start(&mut self, now_ns: u64)
        requires
            old(self).wf(),
        ensures
            final(self).wf(),
            final(self).is_started(),
            final(self).start_mark_spec() == now_ns as int,
            final(self).total_observations() == old(self).total_observations(),
            final(self).iter_observations() == old(self).iter_observations(),
    {
        self.started = true;
        self.start_mark = now_ns;
    }

    /// Ends the trial that the preceding `start` began, at the given clock
    /// reading, over `item_count` items of work: records the elapsed
    /// nanoseconds in the total series and the per-item picoseconds in the
    /// per-item series, and returns both.  Without a preceding `start`, or
    /// with a zero item count, nothing is recorded and the misuse is
    /// reported.
    pub fn end(&mut self, now_ns: u64, item_count: u64) -> (r: Result<TrialSample, TimerError>)
        requires
            old(self).wf(),
            old(self).total_observations().len() < COUNT_LIMIT as int,
            old(self).is_started() ==> old(self).start_mark_spec() <= now_ns as int <= old(
                self,
            ).start_mark_spec() + TRIAL_NS_LIMIT as int,
        ensures
            final(self).wf(),
            !old(self).is_started() ==> r == Err::<TrialSample, TimerError>(
                TimerError::PrecedingStartRequired,
            ) && *final(self) == *old(self),
            old(self).is_started() && item_count == 0 ==> r == Err::<TrialSample, TimerError>(
                TimerError::InvalidTrialCount,
            ) && *final(self) == *old(self),
            old(self).is_started() && item_count > 0 ==> {
                let elapsed: int = now_ns as int - old(self).start_mark_spec();
                &&& r == Ok::<TrialSample, TimerError>(
                    (TrialSample {
                        total_ns: elapsed as u64,
                        per_item_ps: per_item_picos(elapsed, item_count as int) as u64,
                    }),
                )
                &&& final(self).total_observations() == old(self).total_observations().push(
                    elapsed,
                )
                &&& final(self).iter_observations() == old(self).iter_observations().push(
                    per_item_picos(elapsed, item_count as int),
                )
                &&& !final(self).is_started()
            },
    {
        if !self.started {
            return Err(TimerError::PrecedingStartRequired);
        }
        if item_count == 0 {
            return Err(TimerError::InvalidTrialCount);
        }
        let elapsed: u64 = now_ns - self.start_mark;
        let scaled: u64 = elapsed * 1000;
        let per_item: u64 = scaled / item_count;
        proof {
            lemma_div_nonincreasing(scaled as int, item_count as int);
            assert(per_item <= scaled);
            assert(scaled as int <= OBS_LIMIT as int);
        }
        self.total.update(elapsed as i64);
        self.iter.update(per_item as i64);
        self.started = false;
        Ok(TrialSample { total_ns: elapsed, per_item_ps: per_item })
    }

    /// Consumes the timer and returns the exact statistics snapshots of
    /// both metric series, for a scenario that recorded at least one trial.
    pub fn avg_stats(self) -> (r: TimerReport)
        requires
            self.wf(),
            self.total_observations().len() >= 1,
        ensures
            r.total.summarizes(self.total_observations()),
            r.iter.summarizes(self.iter_observations()),
    {
        TimerReport { total: self.total.get_stats(), iter: self.iter.get_stats() }
    }
}

} // verus!
