//! A verified integer square root, used to turn exact variance rationals
//! into fixed-point standard deviations.

use vstd::arithmetic::div_mod::lemma_fundamental_div_mod;
use vstd::arithmetic::div_mod::lemma_mod_bound;
use vstd::prelude::*;

verus! {

/// `r` is the floor of the square root of `x`: the greatest integer whose
/// square does not exceed `x`.
pub open spec fn is_sqrt_floor(r: int, x: int) -> bool {
    &&& 0 <= r
    &&& r * r <= x
    &&& x < (r + 1) * (r + 1)
}

/// The floor of the square root is unique.
pub proof fn lemma_sqrt_floor_unique(r1: int, r2: int, x: int)
    requires
        is_sqrt_floor(r1, x),
        is_sqrt_floor(r2, x),
    ensures
        r1 == r2,
{
    if r1 < r2 {
        assert(r2 * r2 <= x);
        assert((r1 + 1) * (r1 + 1) <= r2 * r2) by (nonlinear_arith)
            requires
                0 <= r1,
                r1 + 1 <= r2,
        ;
    }
    if r2 < r1 {
        assert((r2 + 1) * (r2 + 1) <= r1 * r1) by (nonlinear_arith)
            requires
                0 <= r2,
                r2 + 1 <= r1,
        ;
    }
}

/// A floor square root of the integer quotient `num / den` is the floor of
/// the real square root of the rational `num / den`: it satisfies
/// `den * r^2 <= num < den * (r + 1)^2`.
pub proof fn lemma_sqrt_floor_of_ratio(r: int, num: int, den: int)
    requires
        den >= 1,
        num >= 0,
        is_sqrt_floor(r, num / den),
    ensures
        den * (r * r) <= num,
        num < den * ((r + 1) * (r + 1)),
{
    let q: int = num / den;
    lemma_fundamental_div_mod(num, den);
    lemma_mod_bound(num, den);
    assert(den * (r * r) <= den * q) by (nonlinear_arith)
        requires
            den >= 1,
            r * r <= q,
    ;
    assert(den * q <= num) by (nonlinear_arith)
        requires
            num == den * q + num % den,
            num % den >= 0,
    ;
    assert(num < den * (q + 1)) by (nonlinear_arith)
        requires
            num == den * q + num % den,
            num % den < den,
    ;
    assert(den * (q + 1) <= den * ((r + 1) * (r + 1))) by (nonlinear_arith)
        requires
            den >= 1,
            q + 1 <= (r + 1) * (r + 1),
    ;
}

/// The floor of the square root of `x`, by binary search on the answer.
/// The two bounds of `is_sqrt_floor` pin the result uniquely
/// (`lemma_sqrt_floor_unique`).
pub fn isqrt(x: u128) -> (r: u64)
    ensures
        is_sqrt_floor(r as int, x as int),
{
    let mut lo: u128 = 0;
    let mut hi: u128 = 0x1_0000_0000_0000_0000;
    assert((x as int) < hi * hi) by (nonlinear_arith)
        requires
            hi == 0x1_0000_0000_0000_0000,
            x <= 0xffff_ffff_ffff_ffff_ffff_ffff_ffff_ffff,
    ;
    while hi - lo > 1
        invariant
            lo < hi <= 0x1_0000_0000_0000_0000,
            lo * lo <= x as int,
            (x as int) < hi * hi,
        decreases hi - lo,
    {
        let mid: u128 = lo + (hi - lo) / 2;
        assert(lo < mid < hi);
        assert(mid * mid < 0x1_0000_0000_0000_0000 * 0x1_0000_0000_0000_0000)
            by (nonlinear_arith)
            requires
                0 <= mid < 0x1_0000_0000_0000_0000,
        ;
        if mid * mid <= x {
            lo = mid;
        } else {
            hi = mid;
        }
    }
    assert(hi == lo + 1);
    lo as u64
}

} // verus!
