//! Fixed-point amplitudes.
//!
//! A signal value is an `i64` counting steps of `1 / UNIT`; the real
//! amplitude `1.0` is the integer `UNIT`.  Division always rounds toward
//! negative infinity (`div_floor`), and the byte conversion of the
//! transpose step rounds half away from zero (`round_unit`).

use vstd::prelude::*;
use vstd::arithmetic::div_mod::{
    lemma_fundamental_div_mod, lemma_fundamental_div_mod_converse,
};
use vstd::arithmetic::mul::lemma_mul_unary_negation;

verus! {

/// The fixed-point scale: the integer standing for the amplitude `1.0`.
pub const UNIT: i64 = 65536;

/// Half of `UNIT`, the threshold of round-half-away-from-zero.
pub const HALF_UNIT: i64 = 32768;

/// Largest magnitude an amplitude handed to the library may carry (2^46).
pub const SIG_MAX: i64 = 0x4000_0000_0000;

/// Largest magnitude of a spectrum magnitude entering the power stage (2^23).
pub const MAG_MAX: i64 = 0x80_0000;

/// Largest vector length the summing stages accept (2^14).
pub const LEN_MAX: usize = 16384;

/// Largest sum a vector within the length and amplitude bounds can reach.
pub const SUM_MAX: i64 = 0x1000_0000_0000_0000;

/// Largest magnitude of a power-spectrum entry entering the mel
/// projection (2^30).
pub const POW_MAX: i64 = 0x4000_0000;

/// Largest magnitude of a raw PCM sample handed to the library (2^32).
pub const RAW_MAX: i64 = 0x1_0000_0000;

/// Quotient of `a / b` rounded toward negative infinity, as `int`
/// division does for a positive divisor.
pub open spec fn fdiv(a: int, b: int) -> int {
    a / b
}

/// `t / UNIT` rounded half away from zero.
pub open spec fn round_unit(t: int) -> int {
    if t >= 0 {
        (t + HALF_UNIT) / (UNIT as int)
    } else {
        -((-t + HALF_UNIT) / (UNIT as int))
    }
}

/// The smaller of two integers.
pub open spec fn imin(a: int, b: int) -> int {
    if a < b {
        a
    } else {
        b
    }
}

/// `r` clamped into `[lo, hi]`.
pub open spec fn clamp(r: int, lo: int, hi: int) -> int {
    if r < lo {
        lo
    } else if r > hi {
        hi
    } else {
        r
    }
}

/// Floor division agrees with negated ceiling division of the negated
/// dividend.
proof fn lemma_neg_div(na: int, b: int)
    requires
        na > 0,
        b > 0,
    ensures
        (-na) / b == -((na + b - 1) / b),
{
    let q = (na + b - 1) / b;
    let r = (na + b - 1) % b;
    lemma_fundamental_div_mod(na + b - 1, b);
    assert(na + b - 1 == q * b + r);
    lemma_mul_unary_negation(q, b);
    assert(-na == (-q) * b + (b - 1 - r));
    lemma_fundamental_div_mod_converse(-na, b, -q, b - 1 - r);
}

/// The quotient and the remainder together recover the dividend, and the
/// quotient is ordered and bounded by the dividend's magnitude.
pub proof fn lemma_fdiv_bounds(a: int, b: int)
    requires
        0 < b,
    ensures
        b * fdiv(a, b) <= a < b * fdiv(a, b) + b,
        a >= 0 ==> 0 <= fdiv(a, b) <= a,
        a < 0 ==> a <= fdiv(a, b) <= 0,
{
    lemma_fundamental_div_mod(a, b);
    let q = a / b;
    let r = a % b;
    assert(a == b * q + r);
    if a >= 0 {
        assert(q >= 0 && q <= a) by (nonlinear_arith)
            requires
                a == b * q + r,
                0 <= r < b,
                a >= 0,
                b >= 1,
        ;
    } else {
        assert(a <= q && q <= 0) by (nonlinear_arith)
            requires
                a == b * q + r,
                0 <= r < b,
                a < 0,
                b >= 1,
        ;
    }
}

/// Floor division of `a` by a positive `b`: the quotient rounded toward
/// negative infinity, matching `int` division.
pub fn div_floor(a: i128, b: i128) -> (r: i128)
    requires
        0 < b,
        -0x1_0000_0000_0000_0000_0000_0000_0000 <= a
            <= 0x1_0000_0000_0000_0000_0000_0000_0000,
        b <= 0x1_0000_0000_0000_0000_0000_0000_0000,
    ensures
        r == fdiv(a as int, b as int),
        a >= 0 ==> 0 <= r <= a,
        a < 0 ==> a <= r <= 0,
{
    proof {
        lemma_fdiv_bounds(a as int, b as int);
    }
    if a >= 0 {
        let q = (a as u128) / (b as u128);
        q as i128
    } else {
        let na = (-a) as u128;
        let q = (na + (b as u128 - 1)) / (b as u128);
        proof {
            lemma_neg_div(na as int, b as int);
        }
        -(q as i128)
    }
}

/// Floor division on `i64` values, as `div_floor`.
pub fn div_floor64(a: i64, b: i64) -> (r: i64)
    requires
        0 < b,
        a > i64::MIN,
    ensures
        r == fdiv(a as int, b as int),
        a >= 0 ==> 0 <= r <= a,
        a < 0 ==> a <= r <= 0,
{
    proof {
        lemma_fdiv_bounds(a as int, b as int);
    }
    if a >= 0 {
        let q = (a as u64) / (b as u64);
        q as i64
    } else {
        let na = (-a) as u64;
        let q = (na + (b as u64 - 1)) / (b as u64);
        proof {
            lemma_neg_div(na as int, b as int);
        }
        -(q as i64)
    }
}

/// The integer square root: the largest `r` with `r * r <= n`.
pub open spec fn sqrt_nat(n: nat) -> nat
    decreases n,
{
    if n == 0 {
        0
    } else {
        let r = sqrt_nat((n - 1) as nat);
        if (r + 1) * (r + 1) <= n {
            r + 1
        } else {
            r
        }
    }
}

/// `sqrt_nat` is exactly the rounded-down square root.
pub proof fn lemma_sqrt_nat_bounds(n: nat)
    ensures
        sqrt_nat(n) * sqrt_nat(n) <= n,
        n < (sqrt_nat(n) + 1) * (sqrt_nat(n) + 1),
    decreases n,
{
    if n > 0 {
        lemma_sqrt_nat_bounds((n - 1) as nat);
        let r = sqrt_nat((n - 1) as nat);
        assert(sqrt_nat(n) == if (r + 1) * (r + 1) <= n {
            r + 1
        } else {
            r
        });
        if (r + 1) * (r + 1) <= n {
            assert(n < ((r + 1) + 1) * ((r + 1) + 1)) by (nonlinear_arith)
                requires
                    n - 1 < (r + 1) * (r + 1),
            ;
        }
    } else {
        assert(sqrt_nat(0) == 0);
        assert((sqrt_nat(0) + 1) * (sqrt_nat(0) + 1) == 1) by (nonlinear_arith)
            requires
                sqrt_nat(0) == 0,
        ;
    }
}

/// Two integers that both round-down-square-root the same value agree.
proof fn lemma_sqrt_unique(n: int, a: int, b: int)
    by (nonlinear_arith)
    requires
        0 <= a,
        0 <= b,
        a * a <= n < (a + 1) * (a + 1),
        b * b <= n < (b + 1) * (b + 1),
    ensures
        a == b,
{
}

/// The integer square root, by binary search.
pub fn isqrt(n: u128) -> (r: u64)
    requires
        n < 0x4000_0000_0000_0000_0000_0000_0000_0000,
    ensures
        r == sqrt_nat(n as nat),
{
    proof {
        lemma_sqrt_nat_bounds(n as nat);
    }
    if n == 0 {
        return 0;
    }
    let mut lo: u64 = 0;
    let mut hi: u64 = 0x8000_0000_0000_0000;
    proof {
        assert((hi as int) * (hi as int) > n) by (nonlinear_arith)
            requires
                hi == 0x8000_0000_0000_0000,
                n < 0x4000_0000_0000_0000_0000_0000_0000_0000,
        ;
    }
    while lo + 1 < hi
        invariant
            lo < hi,
            hi <= 0x8000_0000_0000_0000,
            (lo as int) * (lo as int) <= n,
            (hi as int) * (hi as int) > n,
        decreases hi - lo,
    {
        let mid = lo + (hi - lo) / 2;
        proof {
            assert((mid as int) * (mid as int) < 0x4000_0000_0000_0000_0000_0000_0000_0001)
                by (nonlinear_arith)
                requires
                    mid <= 0x8000_0000_0000_0000,
            ;
        }
        if (mid as u128) * (mid as u128) <= n {
            lo = mid;
        } else {
            hi = mid;
        }
    }
    proof {
        lemma_sqrt_unique(n as int, lo as int, sqrt_nat(n as nat) as int);
    }
    lo
}

/// Quotient of `a / b` rounded toward zero, as machine division of
/// signed integers does.
pub open spec fn tdiv(a: int, b: int) -> int {
    if a >= 0 {
        a / b
    } else {
        -((-a) / b)
    }
}

/// Truncating division of `a` by a positive `b`: the quotient rounded
/// toward zero.
pub fn div_trunc64(a: i64, b: i64) -> (r: i64)
    requires
        0 < b,
        a > i64::MIN,
    ensures
        r == tdiv(a as int, b as int),
        a >= 0 ==> 0 <= r <= a,
        a < 0 ==> a <= r <= 0,
{
    if a >= 0 {
        proof {
            lemma_fdiv_bounds(a as int, b as int);
        }
        let q = (a as u64) / (b as u64);
        q as i64
    } else {
        proof {
            lemma_fdiv_bounds(-(a as int), b as int);
        }
        let q = ((-a) as u64) / (b as u64);
        -(q as i64)
    }
}

/// `t / UNIT` rounded half away from zero, the byte rounding of the
/// transpose step.
pub fn round_unit_exec(t: i64) -> (r: i64)
    requires
        -0x4000_0000_0000_0000 < t < 0x4000_0000_0000_0000,
    ensures
        r == round_unit(t as int),
{
    if t >= 0 {
        ((t as u64 + HALF_UNIT as u64) / (UNIT as u64)) as i64
    } else {
        let m = (((-t) as u64 + HALF_UNIT as u64) / (UNIT as u64)) as i64;
        proof {
            assert(0 <= ((-(t as int)) + HALF_UNIT) / (UNIT as int) <= -(t as int));
        }
        -m
    }
}

} // verus!
