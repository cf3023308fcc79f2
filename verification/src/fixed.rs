//! Q16.16 fixed-point arithmetic.
//!
//! Every signal value, coordinate, gain and rate in the crate is an `i64`
//! holding a real number scaled by [`ONE`] = 2^16.  Division rounds toward
//! zero ([`tdiv`]), which keeps all operations exact statements over the
//! integers.

use vstd::arithmetic::div_mod::{
    lemma_div_is_ordered, lemma_div_is_ordered_by_denominator, lemma_div_nonincreasing,
    lemma_div_pos_is_pos,
};
use vstd::prelude::*;

verus! {

/// One unit (1.0) in Q16.16.
pub const ONE: i64 = 65536;

/// Encoding weight of the omnidirectional W component, 1/sqrt(2) in Q16.16.
pub const K_W: i64 = 46341;

/// Largest magnitude of a mono sample accepted into the pipeline (full scale).
pub const AMP_MAX: i64 = 65536;

/// Largest magnitude of a position coordinate (2^14 distance units).
pub const POS_MAX: i64 = 0x4000_0000;

/// Largest magnitude of a velocity coordinate (2^8 units per second).
pub const VEL_MAX: i64 = 0x100_0000;

/// Largest per-source gain factor (2^8).
pub const GAIN_MAX: i64 = 0x100_0000;

/// Smallest allowed minimum-distance floor for attenuation.
pub const DIST_FLOOR_MIN: i64 = 256;

/// Default minimum-distance floor (0.25 distance units).
pub const MIN_DIST_DEFAULT: i64 = 16384;

/// Reference propagation speed for the Doppler shift: 343 units/s in Q16.16.
pub const C_REF: i64 = 22478848;

/// Smallest Doppler resampling rate (0.25).
pub const RATE_MIN: i64 = 16384;

/// Largest Doppler resampling rate (4.0).
pub const RATE_MAX: i64 = 262144;

/// Bound on the magnitude of one encoding weight (attenuation times gain).
pub const WEIGHT_MAX: i64 = 0x1_0000_0000;

/// Bound on the magnitude of one encoded field component.
pub const FIELD_MAX: i64 = 0x400_0000_0000;

/// Bound on the magnitude of a mixed field component (after clamping).
pub const MIX_MAX: i64 = 0x2_0000_0000_0000;

/// Truncating division: the quotient of `a` by `b` rounded toward zero.
/// Meaningful for `b > 0`.
pub open spec fn tdiv(a: int, b: int) -> int {
    if a >= 0 {
        a / b
    } else {
        -((-a) / b)
    }
}

/// Ceiling division for `a >= 0`, `b > 0`.
pub open spec fn cdiv(a: int, b: int) -> int {
    if a % b == 0 {
        a / b
    } else {
        a / b + 1
    }
}

/// Division of `a` by `b` rounded away from zero.  Meaningful for `b > 0`.
pub open spec fn tdiv_away(a: int, b: int) -> int {
    if a >= 0 {
        cdiv(a, b)
    } else {
        -cdiv(-a, b)
    }
}

/// The Q16.16 product of `a` and `b`.
pub open spec fn fmul(a: int, b: int) -> int {
    tdiv(a * b, 65536)
}

/// `x` clamped into `[lo, hi]`.
pub open spec fn clamped(x: int, lo: int, hi: int) -> int {
    if x < lo {
        lo
    } else if x > hi {
        hi
    } else {
        x
    }
}

/// Truncating division brackets the rational quotient and shrinks magnitude.
pub proof fn lemma_tdiv_bounds(a: int, b: int)
    requires
        b > 0,
    ensures
        a >= 0 ==> 0 <= tdiv(a, b) <= a,
        a < 0 ==> a <= tdiv(a, b) <= 0,
        b * tdiv(a, b) <= a < b * (tdiv(a, b) + 1) || b * (tdiv(a, b) - 1) < a <= b * tdiv(a, b),
{
    if a >= 0 {
        lemma_div_pos_is_pos(a, b);
        lemma_div_nonincreasing(a, b);
        assert(b * (a / b) <= a < b * (a / b + 1)) by {
            vstd::arithmetic::div_mod::lemma_fundamental_div_mod(a, b);
            vstd::arithmetic::div_mod::lemma_mod_division_less_than_divisor(a, b);
            assert(b * (a / b + 1) == b * (a / b) + b) by (nonlinear_arith);
        }
    } else {
        lemma_div_pos_is_pos(-a, b);
        lemma_div_nonincreasing(-a, b);
        assert(b * ((-a) / b) <= -a < b * ((-a) / b + 1)) by {
            vstd::arithmetic::div_mod::lemma_fundamental_div_mod(-a, b);
            vstd::arithmetic::div_mod::lemma_mod_division_less_than_divisor(-a, b);
            assert(b * ((-a) / b + 1) == b * ((-a) / b) + b) by (nonlinear_arith);
        }
        assert(b * (tdiv(a, b) - 1) < a <= b * tdiv(a, b)) by {
            assert(b * (-((-a) / b)) == -(b * ((-a) / b))) by (nonlinear_arith);
            assert(b * (-((-a) / b) - 1) == -(b * ((-a) / b + 1))) by (nonlinear_arith);
        }
    }
}

/// Truncating division is monotone in the numerator.
pub proof fn lemma_tdiv_ordered(a1: int, a2: int, b: int)
    requires
        b > 0,
        a1 <= a2,
    ensures
        tdiv(a1, b) <= tdiv(a2, b),
{
    if a1 >= 0 {
        lemma_div_is_ordered(a1, a2, b);
    } else if a2 < 0 {
        lemma_div_is_ordered(-a2, -a1, b);
    } else {
        lemma_div_pos_is_pos(-a1, b);
        lemma_div_pos_is_pos(a2, b);
    }
}

/// A smaller magnitude divided by a larger denominator gives a quotient of
/// smaller magnitude.
pub proof fn lemma_tdiv_denominator(a: int, b1: int, b2: int)
    requires
        0 < b1 <= b2,
        a >= 0,
    ensures
        tdiv(a, b2) <= tdiv(a, b1),
{
    lemma_div_is_ordered_by_denominator(a, b1, b2);
}

/// Truncating division of `a` by positive `b`, computed through unsigned
/// division.
pub fn tdiv64(a: i64, b: i64) -> (r: i64)
    requires
        b > 0,
        a > i64::MIN,
    ensures
        r == tdiv(a as int, b as int),
{
    proof {
        lemma_tdiv_bounds(a as int, b as int);
    }
    if a >= 0 {
        ((a as u64) / (b as u64)) as i64
    } else {
        -((((-a) as u64) / (b as u64)) as i64)
    }
}

/// Truncating division on 128-bit values, for intermediate products.
pub fn tdiv128(a: i128, b: i128) -> (r: i128)
    requires
        b > 0,
        a > i128::MIN,
    ensures
        r == tdiv(a as int, b as int),
{
    proof {
        lemma_tdiv_bounds(a as int, b as int);
    }
    if a >= 0 {
        ((a as u128) / (b as u128)) as i128
    } else {
        -((((-a) as u128) / (b as u128)) as i128)
    }
}

/// The Q16.16 product of `a` and `b`; the mathematical product must stay
/// within 2^62 so the scaled result fits an `i64`.
pub fn fmul64(a: i64, b: i64) -> (r: i64)
    requires
        -0x4000_0000_0000_0000 <= a * b <= 0x4000_0000_0000_0000,
    ensures
        r == fmul(a as int, b as int),
        -0x4000_0000_0000 <= r <= 0x4000_0000_0000,
{
    let p: i128 = (a as i128) * (b as i128);
    let q = tdiv128(p, 65536);
    proof {
        lemma_tdiv_bounds(p as int, 65536);
        lemma_tdiv_ordered(p as int, 0x4000_0000_0000_0000, 65536);
        lemma_tdiv_ordered(-0x4000_0000_0000_0000, p as int, 65536);
        assert(tdiv(0x4000_0000_0000_0000, 65536) == 0x4000_0000_0000) by {
            assert(0x4000_0000_0000_0000int / 65536 == 0x4000_0000_0000) by (nonlinear_arith);
        }
        assert(tdiv(-0x4000_0000_0000_0000, 65536) == -0x4000_0000_0000);
    }
    q as i64
}

/// `x` clamped into `[lo, hi]`.
pub fn clamp64(x: i64, lo: i64, hi: i64) -> (r: i64)
    requires
        lo <= hi,
    ensures
        r == clamped(x as int, lo as int, hi as int),
        lo <= r <= hi,
{
    if x < lo {
        lo
    } else if x > hi {
        hi
    } else {
        x
    }
}

/// Rounding away from zero keeps the sign of the numerator strictly.
pub proof fn lemma_tdiv_away_sign(a: int, b: int)
    requires
        b > 0,
    ensures
        a > 0 ==> tdiv_away(a, b) >= 1,
        a < 0 ==> tdiv_away(a, b) <= -1,
        a == 0 ==> tdiv_away(a, b) == 0,
{
    vstd::arithmetic::div_mod::lemma_div_of0(b);
    vstd::arithmetic::div_mod::lemma_small_mod(0, b as nat);
    if a > 0 {
        lemma_cdiv_pos(a, b);
    } else if a < 0 {
        lemma_cdiv_pos(-a, b);
    }
}

/// Ceiling division of a positive numerator is at least one.
proof fn lemma_cdiv_pos(a: int, b: int)
    requires
        a > 0,
        b > 0,
    ensures
        cdiv(a, b) >= 1,
{
    lemma_div_pos_is_pos(a, b);
    if a % b == 0 {
        vstd::arithmetic::div_mod::lemma_fundamental_div_mod(a, b);
        if a / b == 0 {
            assert(a == b * (a / b) + a % b);
            assert(b * 0 == 0) by (nonlinear_arith);
        }
    }
}

/// Ceiling division, computed for a bounded nonnegative numerator.
pub fn cdiv64(a: i64, b: i64) -> (r: i64)
    requires
        0 <= a <= 0x1000_0000_0000_0000,
        0 < b <= 0x1000_0000_0000_0000,
    ensures
        r == cdiv(a as int, b as int),
        0 <= r <= a,
{
    let q = ((a as u64) + (b as u64) - 1) / (b as u64);
    proof {
        let qa = (a as int) / (b as int);
        let ra = (a as int) % (b as int);
        vstd::arithmetic::div_mod::lemma_fundamental_div_mod(a as int, b as int);
        vstd::arithmetic::div_mod::lemma_mod_division_less_than_divisor(a as int, b as int);
        lemma_div_pos_is_pos(a as int, b as int);
        lemma_div_nonincreasing(a as int, b as int);
        if ra == 0 {
            assert(a + b - 1 == qa * (b as int) + (b - 1)) by (nonlinear_arith)
                requires
                    a == (b as int) * qa + ra && ra == 0,
            ;
            vstd::arithmetic::div_mod::lemma_fundamental_div_mod_converse_div(
                a + b - 1,
                b as int,
                qa,
                b - 1,
            );
        } else {
            assert(a + b - 1 == (qa + 1) * (b as int) + (ra - 1)) by (nonlinear_arith)
                requires
                    a == (b as int) * qa + ra,
            ;
            vstd::arithmetic::div_mod::lemma_fundamental_div_mod_converse_div(
                a + b - 1,
                b as int,
                qa + 1,
                ra - 1,
            );
            if qa + 1 > a {
                assert(qa == a && ra == 0) by (nonlinear_arith)
                    requires
                        a == (b as int) * qa + ra && 0 <= ra < b && 0 <= qa <= a && qa + 1 > a && b
                            > 0,
                ;
            }
        }
    }
    q as i64
}

/// Division rounded away from zero, for bounded operands.
pub fn tdiv_away64(a: i64, b: i64) -> (r: i64)
    requires
        -0x1000_0000_0000_0000 <= a <= 0x1000_0000_0000_0000,
        0 < b <= 0x1000_0000_0000_0000,
    ensures
        r == tdiv_away(a as int, b as int),
        -0x1000_0000_0000_0000 <= r <= 0x1000_0000_0000_0000,
{
    if a >= 0 {
        cdiv64(a, b)
    } else {
        -cdiv64(-a, b)
    }
}

/// `r` is the integer square root of `n`.
pub open spec fn is_isqrt(r: int, n: int) -> bool {
    0 <= r && r * r <= n && n < (r + 1) * (r + 1)
}

/// The integer square root of `n`, as a spec value.
pub open spec fn isqrt_of(n: int) -> int {
    choose|r: int| is_isqrt(r, n)
}

/// The integer square root is unique: any witness is the spec value.
pub proof fn lemma_isqrt_unique(n: int, r: int)
    requires
        is_isqrt(r, n),
    ensures
        isqrt_of(n) == r,
{
    assert(is_isqrt(isqrt_of(n), n)) by {
        assert(exists|q: int| is_isqrt(q, n)) by {
            assert(is_isqrt(r, n));
        }
    }
    let q = isqrt_of(n);
    assert(q == r) by (nonlinear_arith)
        requires
            0 <= r && r * r <= n && n < (r + 1) * (r + 1) && 0 <= q && q * q <= n && n < (q + 1) * (
            q + 1),
    ;
}

/// The integer square root: the largest `r` with `r * r <= n`.
pub fn isqrt64(n: u64) -> (r: u64)
    ensures
        r * r <= n,
        (r + 1) * (r + 1) > n,
        r == isqrt_of(n as int),
{
    if n == 0 {
        proof {
            lemma_isqrt_unique(0, 0);
        }
        return 0;
    }
    let mut lo: u64 = 0;
    let mut hi: u64 = 4294967296;
    while hi - lo > 1
        invariant
            lo < hi <= 4294967296,
            (lo as int) * (lo as int) <= n,
            (hi as int) * (hi as int) > n,
        decreases hi - lo,
    {
        let mid = lo + (hi - lo) / 2;
        assert(lo < mid < hi);
        assert((mid as int) * (mid as int) < 0x1_0000_0000_0000_0000) by (nonlinear_arith)
            requires
                0 < mid < 4294967296,
        ;
        if mid * mid <= n {
            lo = mid;
        } else {
            hi = mid;
        }
    }
    proof {
        lemma_isqrt_unique(n as int, lo as int);
    }
    lo
}

} // verus!
