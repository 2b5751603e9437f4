//! Integer arithmetic helpers shared by the sample-processing modules:
//! truncating division for the fixed-point filter recurrences and an
//! integer square root for magnitude spectra.
use vstd::prelude::*;

verus! {

use vstd::arithmetic::div_mod::lemma_div_is_ordered;
use vstd::arithmetic::div_mod::lemma_div_pos_is_pos;
use vstd::arithmetic::div_mod::lemma_div_nonincreasing;

/// Quotient of `x` by a positive `d`, rounded toward zero — the result
/// Rust's `/` computes on signed integers.
pub open spec fn trunc_div(x: int, d: int) -> int {
    if x >= 0 {
        x / d
    } else {
        -((-x) / d)
    }
}

/// All values of `s` lie within `[-b, b]`.
pub open spec fn bounded_by(s: Seq<i64>, b: int) -> bool {
    forall|i: int| 0 <= i < s.len() ==> -b <= #[trigger] s[i] <= b
}

/// Truncating division keeps the sign of the dividend and never grows
/// its magnitude beyond the exact quotient.
pub proof fn lemma_trunc_div_bounds(x: int, d: int)
    requires
        d >= 1,
    ensures
        x >= 0 ==> 0 <= trunc_div(x, d) <= x,
        x < 0 ==> x <= trunc_div(x, d) <= 0,
{
    if x >= 0 {
        lemma_div_pos_is_pos(x, d);
        lemma_div_nonincreasing(x, d);
    } else {
        lemma_div_pos_is_pos(-x, d);
        lemma_div_nonincreasing(-x, d);
    }
}

/// A dividend bounded by `m` in magnitude yields a truncated quotient
/// bounded by `m / d` in magnitude.
pub proof fn lemma_trunc_div_mag(x: int, d: int, m: int)
    requires
        d >= 1,
        m >= 0,
        -m <= x <= m,
    ensures
        -(m / d) <= trunc_div(x, d) <= m / d,
{
    lemma_div_pos_is_pos(m, d);
    if x >= 0 {
        lemma_div_pos_is_pos(x, d);
        lemma_div_is_ordered(x, m, d);
    } else {
        lemma_div_pos_is_pos(-x, d);
        lemma_div_is_ordered(-x, m, d);
    }
}

/// `x / d`, rounded toward zero.
pub fn div_trunc(x: i64, d: u64) -> (r: i64)
    requires
        1 <= d <= i64::MAX,
        x > i64::MIN,
    ensures
        r == trunc_div(x as int, d as int),
{
    if x >= 0 {
        let q: u64 = (x as u64) / d;
        proof {
            lemma_div_nonincreasing(x as int, d as int);
            lemma_div_pos_is_pos(x as int, d as int);
        }
        q as i64
    } else {
        let neg: u64 = (-x) as u64;
        let q: u64 = neg / d;
        proof {
            lemma_div_nonincreasing(neg as int, d as int);
            lemma_div_pos_is_pos(neg as int, d as int);
        }
        -(q as i64)
    }
}

/// `r` is the integer square root of `n`, rounded down.
pub open spec fn is_sqrt(r: int, n: int) -> bool {
    &&& r >= 0
    &&& r * r <= n
    &&& n < (r + 1) * (r + 1)
}

/// Integer square root of `n`, rounded down.
pub open spec fn sqrt_floor(n: nat) -> nat
    decreases n,
{
    if n == 0 {
        0
    } else {
        let p = sqrt_floor((n - 1) as nat);
        if (p + 1) * (p + 1) <= n {
            p + 1
        } else {
            p
        }
    }
}

pub proof fn lemma_sqrt_floor_is_sqrt(n: nat)
    ensures
        is_sqrt(sqrt_floor(n) as int, n as int),
    decreases n,
{
    if n > 0 {
        lemma_sqrt_floor_is_sqrt((n - 1) as nat);
        let p = sqrt_floor((n - 1) as nat);
        if (p + 1) * (p + 1) <= n {
            assert(n == (p + 1) * (p + 1));
            assert((p + 2) * (p + 2) > (p + 1) * (p + 1)) by (nonlinear_arith)
                requires p >= 0,
            ;
        }
    }
}

/// The rounded-down square root is unique.
pub proof fn lemma_sqrt_unique(r1: int, r2: int, n: int)
    requires
        is_sqrt(r1, n),
        is_sqrt(r2, n),
    ensures
        r1 == r2,
{
    assert(r1 == r2) by (nonlinear_arith)
        requires
            r1 >= 0,
            r2 >= 0,
            r1 * r1 <= n,
            n < (r1 + 1) * (r1 + 1),
            r2 * r2 <= n,
            n < (r2 + 1) * (r2 + 1),
    ;
}

/// Integer square root of `n`, rounded down, by bisection.
pub fn isqrt64(n: u64) -> (r: u64)
    ensures
        r == sqrt_floor(n as nat),
        is_sqrt(r as int, n as int),
        r < 0x1_0000_0000,
{
    let mut lo: u64 = 0;
    let mut hi: u64 = 0x1_0000_0000;
    proof {
        assert((hi as int) * (hi as int) > n as int) by (nonlinear_arith)
            requires
                hi == 0x1_0000_0000u64,
                n <= 0xffff_ffff_ffff_ffffu64,
        ;
    }
    while lo + 1 < hi
        invariant
            0 <= lo < hi <= 0x1_0000_0000,
            (lo as int) * (lo as int) <= n as int,
            (hi as int) * (hi as int) > n as int,
        decreases hi - lo,
    {
        let mid: u64 = lo + (hi - lo) / 2;
        assert(lo < mid < hi);
        proof {
            assert((mid as int) * (mid as int) <= 0x1_0000_0000_0000_0000) by (nonlinear_arith)
                requires mid <= 0x1_0000_0000u64,
            ;
        }
        let sq: u128 = (mid as u128) * (mid as u128);
        if sq <= n as u128 {
            lo = mid;
        } else {
            hi = mid;
        }
    }
    proof {
        assert(is_sqrt(lo as int, n as int));
        lemma_sqrt_floor_is_sqrt(n as nat);
        lemma_sqrt_unique(lo as int, sqrt_floor(n as nat) as int, n as int);
    }
    lo
}

} // verus!
