//! A streaming (single-pass) statistics accumulator.
//!
//! `RunningMean` incorporates one observation at a time and keeps exact
//! integer running sums; `get_stats` consumes it and returns a snapshot
//! from which the mean and both variances are exact rationals:
//!
//! * mean                = `mean_num / count`
//! * population variance = `var_num / count^2`
//! * sample variance     = `var_num / (count * (count - 1))`
//!
//! Welford's algorithm maintains the mean and the sum of squared deviations
//! `M2` incrementally to keep floating-point accumulation stable.  Over
//! exact integers the running sums carry precisely Welford's running state
//! (`mean = sum / count`, `M2 = var_num / count`), and
//! `crate::seq_sums::lemma_welford_recurrence` proves that this state obeys
//! Welford's update formula step for step.

use crate::seq_sums::all_within;
use crate::seq_sums::lemma_m2_num_nonneg;
use crate::seq_sums::lemma_sample_vs_population_identity;
use crate::seq_sums::lemma_sum_bounds;
use crate::seq_sums::lemma_sum_push;
use crate::seq_sums::lemma_two_pass_agreement;
use crate::seq_sums::m2_num;
use crate::seq_sums::scaled_dev_sq_sum;
use crate::seq_sums::sum_of;
use crate::seq_sums::sum_sq_of;
use crate::sqrt::is_sqrt_floor;
use crate::sqrt::isqrt;
use vstd::prelude::*;

verus! {

/// Largest magnitude an observation may have.  The timer feeds durations in
/// nanoseconds and per-item durations in picoseconds, so this allows trials
/// of up to about 13 days.
pub const OBS_LIMIT: i64 = 0x4_0000_0000_0000;

/// Largest number of observations one accumulator accepts.  Together with
/// `OBS_LIMIT` this keeps every intermediate quantity, including the
/// variance numerator `count * sum_sq - sum^2`, inside `i128`.
pub const COUNT_LIMIT: u64 = 8192;

/// Two exact rationals `an / ad` and `bn / bd` are equal.
pub open spec fn frac_eq(an: int, ad: int, bn: int, bd: int) -> bool {
    an * bd == bn * ad
}

/// An online accumulator of count, mean and sum of squared deviations for a
/// sequence of integer observations, kept as exact running sums.
pub struct RunningMean {
    count: u64,
    sum: i128,
    sum_sq: i128,
    obs: Ghost<Seq<int>>,
}

/// The snapshot that `RunningMean::get_stats` returns: the observation
/// count, the mean numerator (the exact sum), and the variance numerator
/// `count * sum_sq - sum^2`, together with the observations they summarize.
pub struct RunningMeanStats {
    pub count: u64,
    pub mean_num: i128,
    pub var_num: i128,
    pub obs: Ghost<Seq<int>>,
}

impl RunningMean {
    /// The observations incorporated so far, most recent last.
    pub closed spec fn observations(self) -> Seq<int> {
        self.obs@
    }

    /// The accumulator's invariant: the running sums are exactly the sum
    /// and the sum of squares of the observations, and everything is small
    /// enough that no intermediate computation can overflow.
    pub closed spec fn wf(self) -> bool {
        &&& self.obs@.len() == self.count
        &&& self.count <= COUNT_LIMIT
        &&& all_within(self.obs@, OBS_LIMIT as int)
        &&& self.sum == sum_of(self.obs@)
        &&& self.sum_sq == sum_sq_of(self.obs@)
    }

    /// An empty accumulator.
    pub fn new() -> (r: Self)
        ensures
            r.wf(),
            r.observations() == Seq::<int>::empty(),
    {
        RunningMean { count: 0, sum: 0, sum_sq: 0, obs: Ghost(Seq::empty()) }
    }

    /// How many observations have been incorporated.
    pub fn count(&self) -> (r: u64)
        requires
            self.wf(),
        ensures
            r == self.observations().len(),
    {
        self.count
    }

    /// Incorporates one observation in O(1) time and space.
    pub fn update(&mut self, value: i64)
        requires
            old(self).wf(),
            old(self).observations().len() < COUNT_LIMIT as int,
            -OBS_LIMIT <= value <= OBS_LIMIT,
        ensures
            final(self).wf(),
            final(self).observations() == old(self).observations().push(value as int),
    {
        let ghost prev = self.obs@;
        let ghost limit: int = OBS_LIMIT as int;
        proof {
            lemma_sum_bounds(prev, limit);
            lemma_sum_push(prev, value as int);
            assert(prev.len() * limit <= (COUNT_LIMIT - 1) * limit) by (nonlinear_arith)
                requires
                    prev.len() <= COUNT_LIMIT - 1,
                    limit > 0,
            ;
            assert(prev.len() * (limit * limit) <= (COUNT_LIMIT - 1) * (limit * limit))
                by (nonlinear_arith)
                requires
                    prev.len() <= COUNT_LIMIT - 1,
                    limit > 0,
            ;
            assert((value as int) * (value as int) <= limit * limit) by (nonlinear_arith)
                requires
                    -limit <= value as int <= limit,
            ;
            assert((value as int) * (value as int) >= 0) by (nonlinear_arith);
        }
        let v: i128 = value as i128;
        self.count = self.count + 1;
        self.sum = self.sum + v;
        self.sum_sq = self.sum_sq + v * v;
        proof {
            self.obs@ = prev.push(value as int);
            assert forall|i: int| 0 <= i < self.obs@.len() implies -limit <= #[trigger] self.obs@[i]
                <= limit by {
                if i < prev.len() {
                    assert(self.obs@[i] == prev[i]);
                } else {
                    assert(self.obs@[i] == value as int);
                }
            }
        }
    }

    /// Consumes the accumulator and returns the exact snapshot.  The mean
    /// equals the arithmetic mean of all observations exactly:
    /// `mean_num / count == sum_of(observations) / count`, and the variance
    /// numerator is the one-pass `count * sum_sq - sum^2`.
    pub fn get_stats(self) -> (r: RunningMeanStats)
        requires
            self.wf(),
            self.observations().len() >= 1,
        ensures
            r.summarizes(self.observations()),
    {
        proof {
            lemma_sum_bounds(self.obs@, OBS_LIMIT as int);
            lemma_m2_num_nonneg(self.obs@);
            assert(self.obs@.len() * (OBS_LIMIT as int) <= COUNT_LIMIT * (OBS_LIMIT as int))
                by (nonlinear_arith)
                requires
                    self.obs@.len() <= COUNT_LIMIT,
                    OBS_LIMIT > 0,
            ;
            assert(self.obs@.len() * ((OBS_LIMIT as int) * (OBS_LIMIT as int)) <= COUNT_LIMIT * (
            (OBS_LIMIT as int) * (OBS_LIMIT as int))) by (nonlinear_arith)
                requires
                    self.obs@.len() <= COUNT_LIMIT,
                    OBS_LIMIT > 0,
            ;
            assert((self.count as int) * (self.sum_sq as int) <= COUNT_LIMIT * (COUNT_LIMIT * (
            (OBS_LIMIT as int) * (OBS_LIMIT as int)))) by (nonlinear_arith)
                requires
                    0 <= self.sum_sq <= COUNT_LIMIT * ((OBS_LIMIT as int) * (OBS_LIMIT as int)),
                    0 <= self.count <= COUNT_LIMIT,
            ;
            assert((self.sum as int) * (self.sum as int) <= (COUNT_LIMIT * (OBS_LIMIT as int)) * (
            COUNT_LIMIT * (OBS_LIMIT as int))) by (nonlinear_arith)
                requires
                    -(COUNT_LIMIT * (OBS_LIMIT as int)) <= self.sum <= COUNT_LIMIT * (
                    OBS_LIMIT as int),
            ;
            assert((self.sum as int) * (self.sum as int) >= 0) by (nonlinear_arith);
        }
        let var_num: i128 = (self.count as i128) * self.sum_sq - self.sum * self.sum;
        RunningMeanStats {
            count: self.count,
            mean_num: self.sum,
            var_num,
            obs: self.obs,
        }
    }
}

impl RunningMeanStats {
    /// The snapshot is the exact summary of the observation sequence `s`.
    pub open spec fn summarizes(self, s: Seq<int>) -> bool {
        &&& self.obs@ == s
        &&& self.count as int == s.len() as int
        &&& 1 <= s.len() as int <= COUNT_LIMIT as int
        &&& self.mean_num as int == sum_of(s)
        &&& self.var_num as int == m2_num(s)
        &&& self.var_num >= 0
    }

    /// The denominator of the exact population variance
    /// `var_num / (count * count)`.
    pub fn population_variance_den(&self) -> (r: u64)
        requires
            self.count <= COUNT_LIMIT,
        ensures
            r as int == (self.count as int) * (self.count as int),
    {
        proof {
            assert((self.count as int) * (self.count as int) <= 8192 * 8192) by (nonlinear_arith)
                requires
                    self.count <= 8192,
            ;
        }
        self.count * self.count
    }

    /// The denominator of the exact sample variance
    /// `var_num / (count * (count - 1))`.
    pub fn sample_variance_den(&self) -> (r: u64)
        requires
            2 <= self.count <= COUNT_LIMIT,
        ensures
            r as int == (self.count as int) * (self.count as int - 1),
    {
        proof {
            assert((self.count as int) * (self.count as int - 1) <= 8192 * 8192)
                by (nonlinear_arith)
                requires
                    self.count <= 8192,
            ;
        }
        self.count * (self.count - 1)
    }

    /// The population standard deviation, as a fixed-point value with
    /// `scale` steps per unit: the floor of the square root of the integer
    /// part of `var_num * scale^2 / count^2`, which by
    /// `crate::sqrt::lemma_sqrt_floor_of_ratio` is exactly
    /// `floor(scale * sqrt(population variance))`.
    pub fn population_std_dev_scaled(&self, scale: u64) -> (r: u64)
        requires
            1 <= self.count <= COUNT_LIMIT,
            self.var_num >= 0,
            1 <= scale,
            (self.var_num as int) * (scale as int) * (scale as int) <= u128::MAX as int,
        ensures
            is_sqrt_floor(
                r as int,
                ((self.var_num as int) * (scale as int) * (scale as int)) / ((self.count as int)
                    * (self.count as int)),
            ),
    {
        proof {
            assert((self.var_num as int) * (scale as int) <= (self.var_num as int) * (scale as int)
                * (scale as int)) by (nonlinear_arith)
                requires
                    self.var_num >= 0,
                    scale >= 1,
            ;
            assert((self.count as int) * (self.count as int) >= 1) by (nonlinear_arith)
                requires
                    self.count >= 1,
            ;
        }
        let num: u128 = (self.var_num as u128) * (scale as u128) * (scale as u128);
        let c: u128 = self.count as u128;
        proof {
            assert(c * c <= 8192 * 8192) by (nonlinear_arith)
                requires
                    c <= 8192,
            ;
        }
        let den: u128 = c * c;
        isqrt(num / den)
    }

    /// The sample standard deviation, as a fixed-point value with `scale`
    /// steps per unit, from the integer part of
    /// `var_num * scale^2 / (count * (count - 1))`.
    pub fn sample_std_dev_scaled(&self, scale: u64) -> (r: u64)
        requires
            2 <= self.count <= COUNT_LIMIT,
            self.var_num >= 0,
            1 <= scale,
            (self.var_num as int) * (scale as int) * (scale as int) <= u128::MAX as int,
        ensures
            is_sqrt_floor(
                r as int,
                ((self.var_num as int) * (scale as int) * (scale as int)) / ((self.count as int)
                    * (self.count as int - 1)),
            ),
    {
        proof {
            assert((self.var_num as int) * (scale as int) <= (self.var_num as int) * (scale as int)
                * (scale as int)) by (nonlinear_arith)
                requires
                    self.var_num >= 0,
                    scale >= 1,
            ;
            assert((self.count as int) * ((self.count - 1) as int) >= 1) by (nonlinear_arith)
                requires
                    self.count >= 2,
            ;
        }
        let num: u128 = (self.var_num as u128) * (scale as u128) * (scale as u128);
        let c: u128 = self.count as u128;
        proof {
            assert(c * (c - 1) <= 8192 * 8192) by (nonlinear_arith)
                requires
                    2 <= c <= 8192,
            ;
        }
        let den: u128 = c * (c - 1);
        isqrt(num / den)
    }
}

/// The mean reported by a snapshot is the exact arithmetic mean: for any
/// snapshot of a non-empty observation sequence, the rational
/// `mean_num / count` equals `sum_of(s) / s.len()`.
pub proof fn lemma_mean_is_arithmetic_mean(st: RunningMeanStats, s: Seq<int>)
    requires
        st.summarizes(s),
    ensures
        frac_eq(st.mean_num as int, st.count as int, sum_of(s), s.len() as int),
{
}

/// The population variance agrees with the naive two-pass computation:
/// the two-pass sum of squared deviations, scaled by `n^2` and divided by
/// the count (`scaled_dev_sq_sum / n^3`), equals the one-pass
/// `var_num / n^2`.  Hence the population standard deviation — the square
/// root of either — is the same.
pub proof fn lemma_population_variance_two_pass(st: RunningMeanStats, s: Seq<int>)
    requires
        st.summarizes(s),
    ensures
        frac_eq(
            scaled_dev_sq_sum(s, s.len() as int, sum_of(s)),
            (s.len() as int) * (s.len() as int) * (s.len() as int),
            st.var_num as int,
            (s.len() as int) * (s.len() as int),
        ),
{
    lemma_two_pass_agreement(s);
    let n: int = s.len() as int;
    let v: int = st.var_num as int;
    assert((n * v) * (n * n) == v * (n * n * n)) by (nonlinear_arith);
}

/// The sample variance equals the population variance times
/// `n / (n - 1)`; taking square roots, the sample standard deviation is the
/// population standard deviation times `sqrt(n / (n - 1))`.
pub proof fn lemma_sample_vs_population(st: RunningMeanStats, s: Seq<int>)
    requires
        st.summarizes(s),
        s.len() >= 2,
    ensures
        frac_eq(
            st.var_num as int,
            (s.len() as int) * (s.len() as int - 1),
            (st.var_num as int) * (s.len() as int),
            ((s.len() as int) * (s.len() as int)) * (s.len() as int - 1),
        ),
{
    lemma_sample_vs_population_identity(st.var_num as int, s.len() as int);
}

/// A single observation has mean equal to that observation and population
/// standard deviation zero.
pub proof fn lemma_single_observation(st: RunningMeanStats, s: Seq<int>)
    requires
        st.summarizes(s),
        s.len() == 1,
    ensures
        frac_eq(st.mean_num as int, st.count as int, s[0], 1),
        st.var_num == 0,
{
    let x: int = s[0];
    let t = s.drop_last();
    assert(t.len() == 0);
    assert(sum_of(t) == 0);
    assert(sum_sq_of(t) == 0);
    assert(s.last() == x);
    assert(sum_of(s) == x);
    assert(sum_sq_of(s) == x * x);
    assert(m2_num(s) == 1 * (x * x) - x * x);
}

} // verus!
