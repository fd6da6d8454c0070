//! Exact sums over a sequence of integer observations, and the algebraic
//! facts that the statistics accumulator relies on: bounds on the running
//! sums, non-negativity of the variance numerator, agreement of the one-pass
//! variance with the two-pass (deviation-based) formula, and Welford's
//! recurrence stated over exact rationals cleared of their denominators.

use vstd::prelude::*;

verus! {

/// The sum of all entries of `s`.
pub open spec fn sum_of(s: Seq<int>) -> int
    decreases s.len(),
{
    if s.len() == 0 {
        0
    } else {
        sum_of(s.drop_last()) + s.last()
    }
}

/// The sum of the squares of all entries of `s`.
pub open spec fn sum_sq_of(s: Seq<int>) -> int
    decreases s.len(),
{
    if s.len() == 0 {
        0
    } else {
        sum_sq_of(s.drop_last()) + s.last() * s.last()
    }
}

/// Every entry of `s` lies in `[-bound, bound]`.
pub open spec fn all_within(s: Seq<int>, bound: int) -> bool {
    forall|i: int| 0 <= i < s.len() ==> -bound <= #[trigger] s[i] <= bound
}

/// The numerator of the exact sum of squared deviations from the mean:
/// with `n = s.len()`, `S = sum_of(s)` and `Q = sum_sq_of(s)`, the quantity
/// `sum_i (s[i] - S/n)^2` equals `(n*Q - S^2) / n`, so `n*Q - S^2` carries
/// the variance information without any division.
pub open spec fn m2_num(s: Seq<int>) -> int {
    s.len() * sum_sq_of(s) - sum_of(s) * sum_of(s)
}

/// The two-pass sum of squared deviations, cleared of denominators:
/// `sum_i (a*s[i] - b)^2`.  With `a = s.len()` and `b = sum_of(s)` each term
/// is the squared deviation of `s[i]` from the mean, scaled by `s.len()`.
pub open spec fn scaled_dev_sq_sum(s: Seq<int>, a: int, b: int) -> int
    decreases s.len(),
{
    if s.len() == 0 {
        0
    } else {
        scaled_dev_sq_sum(s.drop_last(), a, b) + (a * s.last() - b) * (a * s.last() - b)
    }
}

/// Appending an observation extends both running sums in the obvious way.
pub proof fn lemma_sum_push(s: Seq<int>, x: int)
    ensures
        sum_of(s.push(x)) == sum_of(s) + x,
        sum_sq_of(s.push(x)) == sum_sq_of(s) + x * x,
{
    assert(s.push(x).drop_last() =~= s);
}

/// Bounded observations give bounded running sums.
pub proof fn lemma_sum_bounds(s: Seq<int>, bound: int)
    requires
        bound >= 0,
        all_within(s, bound),
    ensures
        -(s.len() * bound) <= sum_of(s) <= s.len() * bound,
        0 <= sum_sq_of(s) <= s.len() * (bound * bound),
    decreases s.len(),
{
    if s.len() == 0 {
    } else {
        let prev = s.drop_last();
        let x: int = s.last();
        assert(all_within(prev, bound)) by {
            assert(forall|i: int|
                0 <= i < prev.len() ==> #[trigger] prev[i] == s[i]);
        }
        lemma_sum_bounds(prev, bound);
        assert(-bound <= x <= bound);
        assert(x * x <= bound * bound) by (nonlinear_arith)
            requires
                -bound <= x <= bound,
        ;
        assert(x * x >= 0) by (nonlinear_arith);
        assert(prev.len() * bound + bound == s.len() * bound) by (nonlinear_arith)
            requires
                prev.len() + 1 == s.len(),
        ;
        assert(prev.len() * (bound * bound) + bound * bound == s.len() * (bound * bound))
            by (nonlinear_arith)
            requires
                prev.len() + 1 == s.len(),
        ;
    }
}

/// The variance numerator is never negative: `n * Q >= S^2`
/// (the Cauchy-Schwarz inequality for the all-ones weighting).
pub proof fn lemma_m2_num_nonneg(s: Seq<int>)
    ensures
        m2_num(s) >= 0,
    decreases s.len(),
{
    if s.len() == 0 {
    } else {
        let prev = s.drop_last();
        let x: int = s.last();
        lemma_m2_num_nonneg(prev);
        let n: int = prev.len() as int;
        let sp: int = sum_of(prev);
        let qp: int = sum_sq_of(prev);
        // Name the product atoms so that every step below is a small
        // distributivity fact; the final combination is then linear.
        let e: int = x * x;
        let a: int = n * qp;
        let b: int = n * e;
        let c: int = sp * sp;
        let d: int = sp * x;
        assert((sp + x) * (sp + x) == c + 2 * d + e) by (nonlinear_arith)
            requires
                c == sp * sp,
                d == sp * x,
                e == x * x,
        ;
        assert((n + 1) * (qp + e) == a + b + qp + e) by (nonlinear_arith)
            requires
                a == n * qp,
                b == n * e,
        ;
        let m: int = m2_num(s);
        assert(m == a + b + qp - c - 2 * d);
        if n == 0 {
            assert(a == 0 && b == 0 && c == 0 && d == 0) by (nonlinear_arith)
                requires
                    n == 0,
                    sp == 0,
                    a == n * qp,
                    b == n * e,
                    c == sp * sp,
                    d == sp * x,
            ;
            assert(m >= 0);
        } else {
            let f: int = n * x;
            assert(f * f == n * b) by (nonlinear_arith)
                requires
                    f == n * x,
                    b == n * (x * x),
            ;
            assert(f * sp == n * d) by (nonlinear_arith)
                requires
                    f == n * x,
                    d == sp * x,
            ;
            assert((f - sp) * (f - sp) == n * b - 2 * (n * d) + c) by (nonlinear_arith)
                requires
                    f * f == n * b,
                    f * sp == n * d,
                    c == sp * sp,
            ;
            assert(n * m == n * a + n * b + a - n * c - 2 * (n * d)) by (nonlinear_arith)
                requires
                    m == a + b + qp - c - 2 * d,
                    a == n * qp,
            ;
            assert((n + 1) * (a - c) == n * a - n * c + a - c) by (nonlinear_arith);
            assert((f - sp) * (f - sp) >= 0) by (nonlinear_arith);
            assert((n + 1) * (a - c) >= 0) by (nonlinear_arith)
                requires
                    n >= 0,
                    a - c >= 0,
            ;
            assert(n * m == (f - sp) * (f - sp) + (n + 1) * (a - c));
            assert(m >= 0) by (nonlinear_arith)
                requires
                    n >= 1,
                    n * m >= 0,
            ;
        }
    }
}

/// The law behind the population standard deviation: the one-pass variance
/// numerator `m2_num` agrees with the naive two-pass sum of squared
/// deviations.  Dividing both sides by `n^3` gives
/// `sum_i (s[i] - mean)^2 / n == m2_num(s) / n^2` exactly, so the population
/// standard deviation computed from `m2_num` is the square root of the
/// two-pass population variance.
pub proof fn lemma_two_pass_agreement(s: Seq<int>)
    ensures
        scaled_dev_sq_sum(s, s.len() as int, sum_of(s)) == s.len() * m2_num(s),
{
    lemma_affine_dev_sum(s, s.len() as int, sum_of(s));
    let n: int = s.len() as int;
    let sm: int = sum_of(s);
    let q: int = sum_sq_of(s);
    assert(n * n * q - 2 * n * sm * sm + n * (sm * sm) == n * (n * q - sm * sm))
        by (nonlinear_arith);
}

/// Closed form for the scaled deviation sum, for any constants `a` and `b`.
proof fn lemma_affine_dev_sum(s: Seq<int>, a: int, b: int)
    ensures
        scaled_dev_sq_sum(s, a, b) == a * a * sum_sq_of(s) - 2 * a * b * sum_of(s) + s.len() * (
        b * b),
    decreases s.len(),
{
    if s.len() == 0 {
    } else {
        let prev = s.drop_last();
        let x: int = s.last();
        lemma_affine_dev_sum(prev, a, b);
        let n: int = prev.len() as int;
        assert((a * x - b) * (a * x - b) + (a * a * sum_sq_of(prev) - 2 * a * b * sum_of(prev)
            + n * (b * b)) == a * a * (sum_sq_of(prev) + x * x) - 2 * a * b * (sum_of(prev) + x)
            + (n + 1) * (b * b)) by (nonlinear_arith);
    }
}

/// The ring identity behind the sample-versus-population law: cross
/// multiplication of the fractions `v / (n * (n - 1))` and
/// `(v * n) / (n^2 * (n - 1))`.
pub proof fn lemma_sample_vs_population_identity(v: int, n: int)
    ensures
        v * ((n * n) * (n - 1)) == (v * n) * (n * (n - 1)),
{
    assert(v * ((n * n) * (n - 1)) == (v * n) * (n * (n - 1))) by (nonlinear_arith);
}

/// Welford's recurrence, stated over exact rationals cleared of their
/// denominators.  Welford's algorithm maintains the mean and the sum of
/// squared deviations `M2` incrementally:
///
///   `mean_n = mean_{n-1} + (x - mean_{n-1}) / n`
///   `M2_n   = M2_{n-1} + (x - mean_{n-1}) * (x - mean_n)`
///
/// In exact arithmetic `mean_n = sum_of(s) / n` and `M2_n = m2_num(s) / n`.
/// The mean recurrence, multiplied by `n`, reduces to the plain sum
/// recurrence; the `M2` recurrence, multiplied by `n * (n - 1)`, becomes
/// the second equality below, whose right-hand product is
/// `(n - 1) * delta` times `n * delta2`.  An accumulator that keeps the
/// exact running sums therefore carries the same information as Welford's
/// running state.
pub proof fn lemma_welford_recurrence(s: Seq<int>)
    requires
        s.len() >= 1,
    ensures
        sum_of(s) == sum_of(s.drop_last()) + s.last(),
        (s.len() - 1) * m2_num(s) == s.len() * m2_num(s.drop_last()) + ((s.len() - 1) * s.last()
            - sum_of(s.drop_last())) * (s.len() * s.last() - sum_of(s)),
{
    let prev = s.drop_last();
    let x: int = s.last();
    let n: int = s.len() as int;
    let sp: int = sum_of(prev);
    let qp: int = sum_sq_of(prev);
    // Name the product atoms so that every step below is a small
    // distributivity fact; the final combination is then linear.
    let e: int = x * x;
    let a: int = n * qp;
    let b: int = n * e;
    let c: int = sp * sp;
    let d: int = sp * x;
    let f: int = n * x;
    let h: int = (n - 1) * x;
    assert(h == f - x) by (nonlinear_arith)
        requires
            f == n * x,
            h == (n - 1) * x,
    ;
    assert((sp + x) * (sp + x) == c + 2 * d + e) by (nonlinear_arith)
        requires
            c == sp * sp,
            d == sp * x,
            e == x * x,
    ;
    assert(n * (qp + e) == a + b) by (nonlinear_arith)
        requires
            a == n * qp,
            b == n * e,
    ;
    let m: int = m2_num(s);
    assert(m == a + b - c - 2 * d - e);
    assert((n - 1) * m == n * a + n * b - n * c - 2 * (n * d) - b - m) by (nonlinear_arith)
        requires
            m == a + b - c - 2 * d - e,
            b == n * e,
    ;
    let g: int = (n - 1) * qp;
    assert(g == a - qp) by (nonlinear_arith)
        requires
            a == n * qp,
            g == (n - 1) * qp,
    ;
    assert(n * (g - c) == n * a - a - n * c) by (nonlinear_arith)
        requires
            g == a - qp,
            a == n * qp,
    ;
    assert(f * f == n * b) by (nonlinear_arith)
        requires
            f == n * x,
            b == n * (x * x),
    ;
    assert(f * x == b) by (nonlinear_arith)
        requires
            f == n * x,
            b == n * (x * x),
    ;
    assert(f * sp == n * d) by (nonlinear_arith)
        requires
            f == n * x,
            d == sp * x,
    ;
    assert((h - sp) * (h - sp) == n * b - 2 * b + e - 2 * (n * d) + 2 * d + c)
        by (nonlinear_arith)
        requires
            h == f - x,
            f * f == n * b,
            f * x == b,
            f * sp == n * d,
            c == sp * sp,
            d == sp * x,
            e == x * x,
    ;
    assert(m2_num(prev) == g - c);
    assert((n - 1) * m == n * (g - c) + (h - sp) * (h - sp));
    assert(n * x - sum_of(s) == h - sp);
}

/// Removing the entry at index `j` removes exactly its contribution from
/// both running sums.
pub proof fn lemma_sum_remove(s: Seq<int>, j: int)
    requires
        0 <= j < s.len(),
    ensures
        sum_of(s.remove(j)) == sum_of(s) - s[j],
        sum_sq_of(s.remove(j)) == sum_sq_of(s) - s[j] * s[j],
    decreases s.len(),
{
    if j == s.len() - 1 {
        assert(s.remove(j) =~= s.drop_last());
    } else {
        let t = s.remove(j);
        s.remove_ensures(j);
        assert(t.last() == s.last());
        assert(t.drop_last() =~= s.drop_last().remove(j));
        lemma_sum_remove(s.drop_last(), j);
        assert(s.drop_last()[j] == s[j]);
    }
}

/// Exact accumulation is order-invariant: two observation sequences with
/// the same multiset of entries have the same count, the same sums, and
/// hence exactly the same mean and variance.  (With floating-point
/// accumulation this holds only up to rounding; with exact running sums it
/// is an identity.)
pub proof fn lemma_sums_permutation(s1: Seq<int>, s2: Seq<int>)
    requires
        s1.to_multiset() == s2.to_multiset(),
    ensures
        s1.len() == s2.len(),
        sum_of(s1) == sum_of(s2),
        sum_sq_of(s1) == sum_sq_of(s2),
        m2_num(s1) == m2_num(s2),
    decreases s1.len(),
{
    broadcast use vstd::seq_lib::group_to_multiset_ensures;

    assert(s1.len() == s1.to_multiset().len());
    assert(s2.len() == s2.to_multiset().len());
    if s1.len() == 0 {
    } else {
        let x: int = s1.last();
        assert(s1[s1.len() - 1] == x);
        assert(s1.contains(x));
        assert(s1.to_multiset().count(x) > 0);
        assert(s2.contains(x));
        let j: int = choose|j: int| 0 <= j < s2.len() && s2[j] == x;
        assert(s1.remove(s1.len() - 1).to_multiset() =~= s1.to_multiset().remove(x));
        assert(s2.remove(j).to_multiset() =~= s2.to_multiset().remove(x));
        assert(s1.remove(s1.len() - 1) =~= s1.drop_last());
        lemma_sums_permutation(s1.drop_last(), s2.remove(j));
        lemma_sum_remove(s2, j);
    }
}

} // verus!
