//! Q16.16 fixed-point arithmetic: the number 1.0 is `ONE` (65536).
//!
//! All signal values in the library live on this scale; the helpers here
//! carry exact contracts so callers can reason about every stage of the
//! pipeline in plain integer arithmetic.

use vstd::prelude::*;

verus! {

use vstd::arithmetic::div_mod::lemma_div_is_ordered;
use vstd::arithmetic::mul::lemma_mul_upper_bound;
use vstd::arithmetic::mul::lemma_mul_inequality;

/// 1.0 on the Q16.16 scale.
pub const ONE: u32 = 65536;

/// Truncating (round-toward-zero) division, the semantics of Rust's `/` on
/// signed integers, for a positive divisor.
pub open spec fn tdiv(x: int, d: int) -> int
    recommends
        d >= 1,
{
    if x >= 0 {
        x / d
    } else {
        -((-x) / d)
    }
}

/// `x.abs()` as a spec value.
pub open spec fn sabs(x: int) -> int {
    if x >= 0 {
        x
    } else {
        -x
    }
}

/// Truncating division of an `i64` by a positive divisor.
pub fn tdiv_i64(x: i64, d: i64) -> (r: i64)
    requires
        1 <= d,
        x > i64::MIN,
    ensures
        r == tdiv(x as int, d as int),
        sabs(r as int) <= sabs(x as int),
{
    if x >= 0 {
        proof {
            lemma_div_is_ordered(0, x as int, d as int);
            lemma_div_is_ordered(x as int, x as int, d as int);
            vstd::arithmetic::div_mod::lemma_div_nonincreasing(x as int, d as int);
        }
        x / d
    } else {
        proof {
            lemma_div_is_ordered(0, -(x as int), d as int);
            vstd::arithmetic::div_mod::lemma_div_nonincreasing(-(x as int), d as int);
        }
        -((-x) / d)
    }
}

/// Q16.16 product of two non-negative values: `a * b / ONE`, rounded down.
pub fn mul_q16(a: u32, b: u32) -> (r: u32)
    requires
        (a as int) * (b as int) < 0x1_0000_0000_0000_0000,
        (a as int) * (b as int) / (ONE as int) < 0x1_0000_0000,
    ensures
        r as int == (a as int) * (b as int) / (ONE as int),
{
    (((a as u64) * (b as u64)) / (ONE as u64)) as u32
}

/// A Q16.16 product of two values at most `ONE` stays at most `ONE`.
pub proof fn lemma_mul_q16_bound(a: int, b: int, cap: int)
    requires
        0 <= a <= cap,
        0 <= b <= ONE,
    ensures
        0 <= a * b / (ONE as int) <= cap,
        a * b <= cap * (ONE as int),
{
    lemma_mul_upper_bound(a, cap, b, ONE as int);
    assert(a * b <= cap * (ONE as int));
    lemma_div_is_ordered(a * b, cap * (ONE as int), ONE as int);
    assert(cap * (ONE as int) / (ONE as int) == cap) by {
        vstd::arithmetic::div_mod::lemma_div_by_multiple(cap, ONE as int);
    }
    vstd::arithmetic::div_mod::lemma_div_pos_is_pos(a * b, ONE as int);
    vstd::arithmetic::mul::lemma_mul_nonnegative(a, b);
}

/// Rounding down a product `x * f / ONE` with `f < ONE` never increases `x`,
/// and strictly decreases any positive `x`; zero stays zero.
pub proof fn lemma_shrink_q16(x: int, f: int)
    requires
        0 <= x,
        0 <= f < ONE,
    ensures
        x * f / (ONE as int) <= x,
        x >= 1 ==> x * f / (ONE as int) < x,
        x == 0 ==> x * f / (ONE as int) == 0,

{
    vstd::arithmetic::mul::lemma_mul_nonnegative(x, f);
    if x >= 1 {
        lemma_mul_inequality(f, (ONE - 1) as int, x);
        assert(x * f == f * x) by {
            vstd::arithmetic::mul::lemma_mul_is_commutative(x, f);
        }
        assert(x * f <= x * (ONE as int) - x) by {
            vstd::arithmetic::mul::lemma_mul_is_distributive_sub(x, ONE as int, 1);
            vstd::arithmetic::mul::lemma_mul_is_commutative(x, (ONE - 1) as int);
        }
        assert(x * (ONE as int) - x < x * (ONE as int));
        vstd::arithmetic::div_mod::lemma_multiply_divide_lt(x * f, x, ONE as int);
    } else {
        assert(x == 0);
        assert(x * f == 0) by {
            vstd::arithmetic::mul::lemma_mul_by_zero_is_zero(f);
        }
    }
    lemma_div_is_ordered(0, x * f, ONE as int);
}

/// Scales a value in `[0, ONE]` by a factor in `[0, ONE)`: used for the
/// silence decay of spectral and waveform state.
pub fn shrink_q16(x: u32, f: u32) -> (r: u32)
    requires
        x <= ONE,
        f < ONE,
    ensures
        r as int == (x as int) * (f as int) / (ONE as int),
        r <= x,
        x >= 1 ==> r < x,
        x == 0 ==> r == 0,
{
    proof {
        lemma_shrink_q16(x as int, f as int);
        lemma_mul_q16_bound(x as int, f as int, ONE as int);
    }
    mul_q16(x, f)
}

/// A truncating quotient of a value bounded by `d * b` is bounded by `b`.
pub proof fn lemma_tdiv_bound(x: int, d: int, b: int)
    requires
        1 <= d,
        0 <= b,
        -(d * b) <= x <= d * b,
    ensures
        -b <= tdiv(x, d) <= b,
{
    if x >= 0 {
        lemma_div_is_ordered(x, d * b, d);
        assert(d * b / d == b) by {
            vstd::arithmetic::div_mod::lemma_div_by_multiple(b, d);
            vstd::arithmetic::mul::lemma_mul_is_commutative(d, b);
        }
        vstd::arithmetic::div_mod::lemma_div_pos_is_pos(x, d);
    } else {
        lemma_div_is_ordered(-x, d * b, d);
        assert(d * b / d == b) by {
            vstd::arithmetic::div_mod::lemma_div_by_multiple(b, d);
            vstd::arithmetic::mul::lemma_mul_is_commutative(d, b);
        }
        vstd::arithmetic::div_mod::lemma_div_pos_is_pos(-x, d);
    }
}

/// Bounds a product and its quotient from bounds on the factors.
pub proof fn lemma_mul_div_le(u: int, v: int, ucap: int, vcap: int, d: int)
    requires
        0 <= u <= ucap,
        0 <= v <= vcap,
        1 <= d,
    ensures
        0 <= u * v <= ucap * vcap,
        0 <= u * v / d <= ucap * vcap / d,
{
    lemma_mul_upper_bound(u, ucap, v, vcap);
    vstd::arithmetic::mul::lemma_mul_nonnegative(u, v);
    lemma_div_is_ordered(u * v, ucap * vcap, d);
    vstd::arithmetic::div_mod::lemma_div_pos_is_pos(u * v, d);
}

/// Scaling by `m/d` with `m <= d` never increases a non-negative value.
pub proof fn lemma_mul_div_cancel_le(x: int, m: int, d: int)
    requires
        0 <= x,
        1 <= m <= d,
    ensures
        0 <= x * m,
        x * m / d <= x,
{
    vstd::arithmetic::mul::lemma_mul_nonnegative(x, m);
    if x == 0 {
        assert(x * m == 0) by {
            vstd::arithmetic::mul::lemma_mul_by_zero_is_zero(m);
        }
    } else {
        vstd::arithmetic::mul::lemma_mul_left_inequality(x, m, d);
        lemma_div_is_ordered(x * m, x * d, d);
        vstd::arithmetic::div_mod::lemma_div_by_multiple(x, d);
    }
}

/// Integer square root: the largest `r` with `r * r <= x`.
pub fn isqrt_u64(x: u64) -> (r: u64)
    ensures
        (r as int) * (r as int) <= x as int,
        (r as int + 1) * (r as int + 1) > x as int,
{
    let mut lo: u64 = 0;
    let mut hi: u64 = 0xFFFF_FFFF;
    if x < 0xFFFF_FFFF {
        hi = x;
    }
    proof {
        assert((hi as int + 1) * (hi as int + 1) > x as int) by (nonlinear_arith)
            requires
                (hi == 0xFFFF_FFFFu64 && x <= u64::MAX) || (x < 0xFFFF_FFFF && hi == x),
        ;
    }
    while lo < hi
        invariant
            lo <= hi <= 0xFFFF_FFFF,
            (lo as int) * (lo as int) <= x as int,
            (hi as int + 1) * (hi as int + 1) > x as int,
        decreases hi - lo,
    {
        let mid: u64 = lo + (hi - lo + 1) / 2;
        proof {
            assert((mid as int) * (mid as int) < 0x1_0000_0000_0000_0000) by (nonlinear_arith)
                requires
                    mid <= 0xFFFF_FFFFu64,
            ;
        }
        if mid * mid <= x {
            lo = mid;
        } else {
            hi = mid - 1;
        }
    }
    lo
}

} // verus!
