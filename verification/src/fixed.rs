//! Fixed-point scalars.
//!
//! Every real quantity of the simulation is an integer count of millionths:
//! the value `v` stands for the real number `v / UNIT`. Sums saturate at the
//! limits of `i32`, and square roots are rounded down.

use vstd::prelude::*;

verus! {

/// The fixed-point representation of the real number one.
pub const UNIT: i32 = 1_000_000;

/// The magnitude of an integer.
pub open spec fn magnitude(a: int) -> int {
    if a < 0 {
        -a
    } else {
        a
    }
}

/// The value of `i32` that is nearest to `a`.
pub open spec fn clamp_i32(a: int) -> int {
    if a < i32::MIN {
        i32::MIN as int
    } else if a > i32::MAX {
        i32::MAX as int
    } else {
        a
    }
}

/// The value of `i64` that is nearest to `a`.
pub open spec fn clamp_i64(a: int) -> int {
    if a < i64::MIN {
        i64::MIN as int
    } else if a > i64::MAX {
        i64::MAX as int
    } else {
        a
    }
}

/// The product of the fixed-point numbers `a` and `b`, rounded toward zero.
pub open spec fn fixed_mul(a: int, b: int) -> int {
    trunc_div(a * b, UNIT as int)
}

/// The sum of `a` and `b`, held at the limits of `i32`.
pub open spec fn sat_add(a: int, b: int) -> int {
    clamp_i32(a + b)
}

/// `a / b` rounded toward zero, for a positive `b`.
pub open spec fn trunc_div(a: int, b: int) -> int {
    if a >= 0 {
        a / b
    } else {
        -((-a) / b)
    }
}

/// The largest `r` with `r * r <= n`.
pub open spec fn floor_sqrt(n: nat) -> nat
    decreases n,
{
    if n == 0 {
        0
    } else {
        let r = floor_sqrt((n - 1) as nat);
        if (r + 1) * (r + 1) <= n {
            r + 1
        } else {
            r
        }
    }
}

/// `floor_sqrt(n)` squared is at most `n`, and the next square is above `n`.
pub proof fn lemma_floor_sqrt_bounds(n: nat)
    ensures
        floor_sqrt(n) * floor_sqrt(n) <= n,
        n < (floor_sqrt(n) + 1) * (floor_sqrt(n) + 1),
    decreases n,
{
    if n > 0 {
        lemma_floor_sqrt_bounds((n - 1) as nat);
        let r = floor_sqrt((n - 1) as nat);
        if (r + 1) * (r + 1) <= n {
            assert(floor_sqrt(n) == r + 1);
            assert((r + 1 + 1) * (r + 1 + 1) > (r + 1) * (r + 1)) by (nonlinear_arith);
        } else {
            assert(floor_sqrt(n) == r);
        }
    } else {
        assert(floor_sqrt(n) == 0);
        assert((0 + 1) * (0 + 1) == 1) by (nonlinear_arith);
    }
}

/// Only one number lies between the two bounds of `lemma_floor_sqrt_bounds`.
pub proof fn lemma_floor_sqrt_unique(n: nat, r: nat)
    requires
        r * r <= n,
        n < (r + 1) * (r + 1),
    ensures
        r == floor_sqrt(n),
{
    lemma_floor_sqrt_bounds(n);
    let s = floor_sqrt(n);
    if r < s {
        assert((r + 1) * (r + 1) <= s * s) by (nonlinear_arith)
            requires
                r + 1 <= s,
        ;
    } else if s < r {
        assert((s + 1) * (s + 1) <= r * r) by (nonlinear_arith)
            requires
                s + 1 <= r,
        ;
    }
}

/// A quotient times its positive divisor is the largest multiple of the
/// divisor that does not exceed the dividend.
pub proof fn lemma_quotient_bounds(a: int, d: int)
    requires
        d > 0,
    ensures
        (a / d) * d <= a,
        a < (a / d + 1) * d,
{
    vstd::arithmetic::div_mod::lemma_fundamental_div_mod(a, d);
    vstd::arithmetic::div_mod::lemma_mod_bound(a, d);
    let q = a / d;
    assert(d * q == q * d) by (nonlinear_arith);
    assert((q + 1) * d == q * d + d) by (nonlinear_arith);
}

/// The sum of two fixed-point numbers, held at the limits of `i32`.
pub fn saturating_sum(a: i32, b: i32) -> (r: i32)
    ensures
        r == sat_add(a as int, b as int),
{
    let wide: i64 = a as i64 + b as i64;
    if wide < i32::MIN as i64 {
        i32::MIN
    } else if wide > i32::MAX as i64 {
        i32::MAX
    } else {
        wide as i32
    }
}

/// The value of `i64` that is nearest to `a`.
pub fn saturate(a: i128) -> (r: i64)
    ensures
        r == clamp_i64(a as int),
{
    if a < i64::MIN as i128 {
        i64::MIN
    } else if a > i64::MAX as i128 {
        i64::MAX
    } else {
        a as i64
    }
}

/// The product of two fixed-point numbers, rounded toward zero.
pub fn multiply(a: i32, b: i32) -> (r: i64)
    ensures
        r == fixed_mul(a as int, b as int),
{
    let wide: i64 = a as i64;
    assert(-0x4000_0000_0000_0000 <= wide * b <= 0x4000_0000_0000_0000) by (nonlinear_arith)
        requires
            -0x8000_0000 <= wide <= 0x8000_0000,
            -0x8000_0000 <= b <= 0x8000_0000,
    ;
    let product: i64 = wide * b as i64;
    if product >= 0 {
        product / 1_000_000
    } else {
        -((-product) / 1_000_000)
    }
}

/// The square root of `n`, rounded down.
pub fn isqrt(n: u64) -> (r: u32)
    ensures
        r == floor_sqrt(n as nat),
{
    let mut lo: u64 = 0;
    let mut hi: u64 = 0x1_0000_0000;
    assert(0x1_0000_0000u64 * 0x1_0000_0000u64 > n) by (nonlinear_arith)
        requires
            n <= u64::MAX,
    ;
    while hi - lo > 1
        invariant
            lo < hi <= 0x1_0000_0000,
            lo * lo <= n,
            n < hi * hi,
        decreases hi - lo,
    {
        let mid: u64 = lo + (hi - lo) / 2;
        assert(mid * mid <= 0xffff_ffff * 0xffff_ffff) by (nonlinear_arith)
            requires
                0 <= mid <= 0xffff_ffff,
        ;
        if mid * mid <= n {
            lo = mid;
        } else {
            hi = mid;
        }
    }
    proof {
        lemma_floor_sqrt_unique(n as nat, lo as nat);
    }
    lo as u32
}

} // verus!
