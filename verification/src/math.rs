//! Fixed-point arithmetic helpers and fast function approximations.
//!
//! Values are signed 32.32 fixed-point numbers held in `i64`: the integer `x`
//! stands for the real number `x / 2^32`. Products and quotients are computed
//! through 128-bit intermediates, so every operation here is exact integer
//! arithmetic and is specified exactly.

use vstd::prelude::*;
use vstd::arithmetic::div_mod::{lemma_div_is_ordered, lemma_div_multiples_vanish, lemma_div_pos_is_pos};

use crate::{FIXED_ONE, SampleCalc};

verus! {

/// The fixed-point product `a * b / 2^32`, rounded toward zero.
/// Matches the executable `mul_fix` for a non-negative second factor.
pub open spec fn spec_mul_fix(a: int, b: int) -> int {
    if a >= 0 {
        (a * b) / (FIXED_ONE as int)
    } else {
        -(((-a) * b) / (FIXED_ONE as int))
    }
}

/// The fixed-point quotient `a * 2^32 / b`, rounded down.
/// Matches the executable `div_fix` for non-negative `a` and positive `b`.
pub open spec fn spec_div_fix(a: int, b: int) -> int {
    (a * (FIXED_ONE as int)) / b
}

/// Multiplies two fixed-point values exactly: the result is
/// `a * b / 2^32` rounded toward zero. The second factor must be
/// non-negative; in this library every multiplier (amplitude, ratio,
/// sample time) is.
pub fn mul_fix(a: i64, b: i64) -> (r: i64)
    requires
        0 <= b,
        -0x7fff_ffff_ffff_ffff <= a,
        (if a >= 0 {
            a as int
        } else {
            -a as int
        }) * b <= 0x7fff_ffff_ffff_ffff * (FIXED_ONE as int),
    ensures
        r == spec_mul_fix(a as int, b as int),
{
    if a >= 0 {
        let p: u128 = (a as u128) * (b as u128);
        let q: u128 = p / (FIXED_ONE as u128);
        proof {
            lemma_div_is_ordered(p as int, 0x7fff_ffff_ffff_ffff * (FIXED_ONE as int), FIXED_ONE as int);
            lemma_div_multiples_vanish(0x7fff_ffff_ffff_ffff, FIXED_ONE as int);
            lemma_div_pos_is_pos(p as int, FIXED_ONE as int);
        }
        q as i64
    } else {
        let m: u64 = (-a) as u64;
        let p: u128 = (m as u128) * (b as u128);
        let q: u128 = p / (FIXED_ONE as u128);
        proof {
            lemma_div_is_ordered(p as int, 0x7fff_ffff_ffff_ffff * (FIXED_ONE as int), FIXED_ONE as int);
            lemma_div_multiples_vanish(0x7fff_ffff_ffff_ffff, FIXED_ONE as int);
            lemma_div_pos_is_pos(p as int, FIXED_ONE as int);
        }
        -(q as i64)
    }
}

/// Divides two fixed-point values exactly: the result is `a * 2^32 / b`
/// rounded down. The caller must show that the quotient fits in `i64`.
pub fn div_fix(a: i64, b: i64) -> (r: i64)
    requires
        0 <= a,
        0 < b,
        spec_div_fix(a as int, b as int) <= 0x7fff_ffff_ffff_ffff,
    ensures
        r == spec_div_fix(a as int, b as int),
        0 <= r,
{
    let p: u128 = (a as u128) * (FIXED_ONE as u128);
    let q: u128 = p / (b as u128);
    proof {
        lemma_div_pos_is_pos(p as int, b as int);
    }
    q as i64
}

/// Multiplies two non-negative fixed-point values through a 128-bit
/// intermediate, refusing results beyond the library's working range.
pub fn mul_fix_checked(a: i64, b: i64) -> (r: Option<i64>)
    requires
        0 <= a,
        0 <= b,
    ensures
        spec_mul_fix(a as int, b as int) <= crate::FIXED_LIMIT ==> r === Some(
            spec_mul_fix(a as int, b as int) as i64,
        ),
        spec_mul_fix(a as int, b as int) > crate::FIXED_LIMIT ==> r is None,
{
    proof {
        assert((a as int) * (b as int) <= 0x7fff_ffff_ffff_ffff * 0x7fff_ffff_ffff_ffff)
            by (nonlinear_arith)
            requires
                0 <= a <= 0x7fff_ffff_ffff_ffff,
                0 <= b <= 0x7fff_ffff_ffff_ffff,
        ;
    }
    let p: u128 = (a as u128) * (b as u128);
    let q: u128 = p / (FIXED_ONE as u128);
    proof {
        lemma_div_pos_is_pos(p as int, FIXED_ONE as int);
    }
    if q > (crate::FIXED_LIMIT as u128) {
        Option::None
    } else {
        Some(q as i64)
    }
}

/// The remainder of `a` modulo `m`, for a non-negative value and a positive
/// modulus; used to fold phases back into one period.
pub fn mod_fix(a: i64, m: i64) -> (r: i64)
    requires
        0 <= a,
        0 < m,
    ensures
        r == (a as int) % (m as int),
        0 <= r < m,
{
    ((a as u64) % (m as u64)) as i64
}

/// Bounds of the fixed-point product of two non-negative bounded factors.
pub proof fn lemma_mul_fix_bounds(a: int, b: int, am: int, bm: int)
    requires
        0 <= a <= am,
        0 <= b <= bm,
    ensures
        0 <= spec_mul_fix(a, b) <= (am * bm) / (FIXED_ONE as int),
{
    assert(a * b <= am * bm) by (nonlinear_arith)
        requires
            0 <= a <= am,
            0 <= b <= bm,
    ;
    assert(a * b >= 0) by (nonlinear_arith)
        requires
            0 <= a,
            0 <= b,
    ;
    lemma_div_is_ordered(a * b, am * bm, FIXED_ONE as int);
    vstd::arithmetic::div_mod::lemma_div_basics(a * b);
    lemma_div_is_ordered(0, a * b, FIXED_ONE as int);
}

/// Bounds of the fixed-point product when the first factor may be negative.
pub proof fn lemma_mul_fix_abs_bounds(a: int, b: int, am: int, bm: int)
    requires
        -am <= a <= am,
        0 <= b <= bm,
        0 <= am,
    ensures
        -((am * bm) / (FIXED_ONE as int)) <= spec_mul_fix(a, b) <= (am * bm) / (FIXED_ONE as int),
{
    if a >= 0 {
        lemma_mul_fix_bounds(a, b, am, bm);
        lemma_mul_fix_bounds(am, bm, am, bm);
    } else {
        lemma_mul_fix_bounds(-a, b, am, bm);
        assert(spec_mul_fix(a, b) == -spec_mul_fix(-a, b));
    }
}

/// Multiplying by a factor of at most one does not increase a non-negative
/// fixed-point value.
pub proof fn lemma_mul_fix_le_one(a: int, b: int)
    requires
        0 <= a,
        0 <= b <= FIXED_ONE as int,
    ensures
        0 <= spec_mul_fix(a, b) <= a,
{
    assert(a * b <= a * (FIXED_ONE as int)) by (nonlinear_arith)
        requires
            0 <= a,
            b <= FIXED_ONE as int,
    ;
    assert(a * b >= 0) by (nonlinear_arith)
        requires
            0 <= a,
            0 <= b,
    ;
    lemma_div_is_ordered(a * b, a * (FIXED_ONE as int), FIXED_ONE as int);
    lemma_div_multiples_vanish(a, FIXED_ONE as int);
    lemma_div_is_ordered(0, a * b, FIXED_ONE as int);
}

/// The fixed-point product grows with its non-negative second factor.
pub proof fn lemma_mul_fix_mono_right(a: int, b1: int, b2: int)
    requires
        0 <= a,
        0 <= b1 <= b2,
    ensures
        spec_mul_fix(a, b1) <= spec_mul_fix(a, b2),
{
    assert(a * b1 <= a * b2) by (nonlinear_arith)
        requires
            0 <= a,
            b1 <= b2,
    ;
    assert(a * b1 >= 0) by (nonlinear_arith)
        requires
            0 <= a,
            0 <= b1,
    ;
    lemma_div_is_ordered(a * b1, a * b2, FIXED_ONE as int);
}

/// A fixed-point product with a signed first factor lies between zero and
/// the product with the largest second factor.
pub proof fn lemma_mul_fix_signed_between(a: int, b: int, bm: int)
    requires
        0 <= b <= bm,
        -0x7fff_ffff_ffff_ffff <= a <= 0x7fff_ffff_ffff_ffff,
    ensures
        a >= 0 ==> 0 <= spec_mul_fix(a, b) <= spec_mul_fix(a, bm),
        a < 0 ==> spec_mul_fix(a, bm) <= spec_mul_fix(a, b) <= 0,
{
    if a >= 0 {
        lemma_mul_fix_mono_right(a, b, bm);
        lemma_mul_fix_mono_right(a, 0, b);
        vstd::arithmetic::div_mod::lemma_div_basics(0);
        assert(a * 0 == 0) by (nonlinear_arith);
    } else {
        lemma_mul_fix_mono_right(-a, b, bm);
        lemma_mul_fix_mono_right(-a, 0, b);
        assert((-a) * 0 == 0) by (nonlinear_arith);
        vstd::arithmetic::div_mod::lemma_div_basics(0);
    }
}

/// Bounds of the fixed-point quotient of bounded positive operands.
pub proof fn lemma_div_fix_bounds(a: int, b: int)
    requires
        1 <= a,
        1 <= b,
        b <= a * (FIXED_ONE as int),
    ensures
        1 <= spec_div_fix(a, b) <= a * (FIXED_ONE as int),
{
    assert(1 * (FIXED_ONE as int) <= a * (FIXED_ONE as int)) by (nonlinear_arith)
        requires
            1 <= a,
    ;
    vstd::arithmetic::div_mod::lemma_div_non_zero(a * (FIXED_ONE as int), b);
    vstd::arithmetic::div_mod::lemma_div_is_ordered_by_denominator(a * (FIXED_ONE as int), 1, b);
    vstd::arithmetic::div_mod::lemma_div_basics(a * (FIXED_ONE as int));
}

/// The fixed-point representation of `0.225`, the correction weight of the
/// parabolic sine approximation.
pub const SIN_CORRECTION: i64 = 966367642;

/// The integer square root: the greatest `r` with `r * r <= n`.
pub open spec fn spec_isqrt(n: nat) -> nat {
    choose|r: nat| #![trigger r * r] r * r <= n && (r + 1) * (r + 1) > n
}

/// Two integer square roots of the same number are equal.
pub proof fn lemma_isqrt_unique(n: nat, a: nat, b: nat)
    requires
        a * a <= n,
        (a + 1) * (a + 1) > n,
        b * b <= n,
        (b + 1) * (b + 1) > n,
    ensures
        a == b,
{
    assert(a == b) by (nonlinear_arith)
        requires
            a * a <= n,
            (a + 1) * (a + 1) > n,
            b * b <= n,
            (b + 1) * (b + 1) > n,
    ;
}

/// The integer square root of a 64-bit number, by binary search.
pub fn isqrt_u64(n: u64) -> (r: u64)
    ensures
        r == spec_isqrt(n as nat),
        (r as int) * (r as int) <= n,
        ((r + 1) as int) * ((r + 1) as int) > n,
        r <= 0xffff_ffff,
{
    let mut lo: u64 = 0;
    let mut hi: u64 = 0x1_0000_0000;
    proof {
        assert((0x1_0000_0001 as int) * (0x1_0000_0001 as int) > 0xffff_ffff_ffff_ffff as int)
            by (nonlinear_arith);
    }
    while lo + 1 < hi
        invariant
            lo < hi <= 0x1_0000_0000,
            (lo as int) * (lo as int) <= n,
            (hi as int) * (hi as int) > n,
        decreases hi - lo,
    {
        let mid: u64 = lo + (hi - lo) / 2;
        proof {
            assert((mid as int) * (mid as int) <= 0x1_0000_0000 * 0x1_0000_0000)
                by (nonlinear_arith)
                requires
                    0 <= mid <= 0x1_0000_0000,
            ;
        }
        let sq: u128 = (mid as u128) * (mid as u128);
        if sq <= (n as u128) {
            lo = mid;
        } else {
            hi = mid;
        }
    }
    proof {
        assert((lo as nat) * (lo as nat) <= n as nat && ((lo as nat) + 1) * ((lo as nat) + 1)
            > n as nat);
        assert(exists|r: nat| #![trigger r * r]
            r * r <= n as nat && (r + 1) * (r + 1) > n as nat);
        lemma_isqrt_unique(n as nat, lo as nat, spec_isqrt(n as nat));
    }
    lo
}

/// The chain of square-root factors of the binary exponential: the factor of
/// step `i` is `2^(-1 / 2^(i + 1))` in fixed point, each one the integer
/// square root of its predecessor rescaled.
pub open spec fn spec_exp2_factor(i: nat) -> nat
    decreases i,
{
    if i == 0 {
        spec_isqrt(0x8000_0000_0000_0000)
    } else {
        spec_isqrt(spec_exp2_factor((i - 1) as nat) * 0x1_0000_0000)
    }
}

/// The fixed-point binary exponential of a negative fraction, computed bit
/// by bit: the state after the remaining `32 - i` steps on `(result, rem)`.
pub open spec fn spec_exp2_step(result: nat, rem: nat, i: nat) -> nat
    decreases 32 - i,
{
    if i >= 32 {
        result
    } else {
        let rem2 = 2 * rem;
        if rem2 >= 0x1_0000_0000 {
            spec_exp2_step(
                (result * spec_exp2_factor(i)) / 0x1_0000_0000,
                (rem2 - 0x1_0000_0000) as nat,
                i + 1,
            )
        } else {
            spec_exp2_step(result, rem2, i + 1)
        }
    }
}

/// The fixed-point value of `2^(-f / 2^32)` as this library computes it.
pub open spec fn spec_exp2_neg_frac(f: nat) -> nat {
    spec_exp2_step(0x1_0000_0000, f, 0)
}

/// Every number has an integer square root.
proof fn lemma_isqrt_exists(n: nat)
    ensures
        exists|r: nat| #![trigger r * r] r * r <= n && (r + 1) * (r + 1) > n,
    decreases n,
{
    if n == 0 {
        assert(0nat * 0nat <= n && (0nat + 1) * (0nat + 1) > n) by (nonlinear_arith)
            requires
                n == 0,
        ;
    } else {
        lemma_isqrt_exists((n - 1) as nat);
        let r = choose|r: nat| #![trigger r * r]
            r * r <= n - 1 && (r + 1) * (r + 1) > n - 1;
        if (r + 1) * (r + 1) > n {
            assert(r * r <= n);
        } else {
            assert((r + 1) * (r + 1) <= n);
            assert(((r + 1) + 1) * ((r + 1) + 1) > n) by (nonlinear_arith)
                requires
                    (r + 1) * (r + 1) > n - 1,
                    (r + 1) * (r + 1) <= n,
            ;
        }
    }
}

/// The fixed-point binary exponential of `-f / 2^32`, computed as a product
/// of square-root factors, one for each set bit of the fraction.
pub fn exp2_neg_frac(f: u64) -> (r: u64)
    requires
        f < 0x1_0000_0000,
    ensures
        r == spec_exp2_neg_frac(f as nat),
        r <= 0x1_0000_0000,
{
    let mut result: u64 = 0x1_0000_0000;
    let mut factor: u64 = isqrt_u64(0x8000_0000_0000_0000);
    let mut rem: u64 = f;
    let mut i: usize = 0;
    while i < 32
        invariant
            0 <= i <= 32,
            result <= 0x1_0000_0000,
            rem < 0x1_0000_0000,
            factor == spec_exp2_factor(i as nat),
            factor <= 0xffff_ffff,
            spec_exp2_step(result as nat, rem as nat, i as nat) == spec_exp2_neg_frac(f as nat),
        decreases 32 - i,
    {
        let rem2: u64 = rem * 2;
        if rem2 >= 0x1_0000_0000 {
            proof {
                assert((result as int) * (factor as int) <= (result as int) * 0x1_0000_0000
                    && (result as int) * 0x1_0000_0000 <= 0x1_0000_0000 * 0x1_0000_0000)
                    by (nonlinear_arith)
                    requires
                        0 <= result <= 0x1_0000_0000,
                        0 <= factor <= 0x1_0000_0000,
                ;
            }
            let p: u128 = (result as u128) * (factor as u128);
            let q: u128 = p / 0x1_0000_0000u128;
            proof {
                lemma_div_is_ordered(
                    p as int,
                    (result as int) * 0x1_0000_0000,
                    0x1_0000_0000,
                );
                lemma_div_multiples_vanish(result as int, 0x1_0000_0000);
                lemma_div_pos_is_pos(p as int, 0x1_0000_0000);
            }
            result = q as u64;
            rem = rem2 - 0x1_0000_0000;
        } else {
            rem = rem2;
        }
        factor = isqrt_u64(factor * 0x1_0000_0000);
        i = i + 1;
    }
    result
}

/// The per-sample multiplier `0.5 ^ (sample_time / half_life)` of
/// exponentially decaying amplitudes, in fixed point: the whole halvings of
/// the exponent become right shifts, its fraction a product of square-root
/// factors.
pub open spec fn spec_decay_multiplier(sample_time: int, half_life: int) -> int {
    let q = spec_div_fix(sample_time, half_life);
    let k = q / (FIXED_ONE as int);
    let f = q % (FIXED_ONE as int);
    if k >= 32 {
        0
    } else {
        (spec_exp2_neg_frac(f as nat) / vstd::arithmetic::power2::pow2(k as nat)) as int
    }
}

/// Computes the per-sample decay multiplier for a half-life, exactly as
/// `spec_decay_multiplier` states it. The result never exceeds one: decaying
/// amplitudes never grow.
pub fn decay_multiplier(sample_time: i64, half_life: i64) -> (m: i64)
    requires
        1 <= sample_time <= FIXED_ONE,
        1 <= half_life,
    ensures
        m == spec_decay_multiplier(sample_time as int, half_life as int),
        0 <= m <= FIXED_ONE,
{
    proof {
        assert((sample_time as int) * (FIXED_ONE as int) <= (FIXED_ONE as int) * (
        FIXED_ONE as int)) by (nonlinear_arith)
            requires
                1 <= sample_time <= FIXED_ONE,
        ;
    }
    let p: u128 = (sample_time as u128) * (FIXED_ONE as u128);
    let q: u128 = p / (half_life as u128);
    let k: u128 = q / (FIXED_ONE as u128);
    let f: u64 = (q % (FIXED_ONE as u128)) as u64;
    proof {
        lemma_div_pos_is_pos(p as int, half_life as int);
        lemma_div_pos_is_pos(q as int, FIXED_ONE as int);
    }
    if k >= 32 {
        return 0;
    }
    let e: u64 = exp2_neg_frac(f);
    let kk: u64 = k as u64;
    let mut m: u64 = e;
    let mut j: u64 = 0;
    proof {
        vstd::arithmetic::power2::lemma2_to64();
    }
    while j < kk
        invariant
            0 <= j <= kk < 32,
            e == spec_exp2_neg_frac(f as nat),
            m as nat == spec_exp2_neg_frac(f as nat) / vstd::arithmetic::power2::pow2(j as nat),
            m <= 0x1_0000_0000,
        decreases kk - j,
    {
        proof {
            vstd::arithmetic::power2::lemma_pow2_unfold((j + 1) as nat);
            vstd::arithmetic::power2::lemma_pow2_pos(j as nat);
            vstd::arithmetic::div_mod::lemma_div_denominator(
                e as int,
                vstd::arithmetic::power2::pow2(j as nat) as int,
                2,
            );
            assert(vstd::arithmetic::power2::pow2(j as nat) as int * 2 == vstd::arithmetic::power2::pow2(
                (j + 1) as nat,
            ) as int) by (nonlinear_arith)
                requires
                    vstd::arithmetic::power2::pow2((j + 1) as nat) == 2 * vstd::arithmetic::power2::pow2(
                        j as nat,
                    ),
            ;
        }
        m = m / 2;
        j = j + 1;
    }
    m as i64
}

/// The sine of the half period, by the parabola `4 x (1 - x)` over the
/// phase fraction `x = r / pi` with a quadratic correction; everything in
/// fixed point, rounded as the executable code rounds.
pub open spec fn spec_half_sin(r: int) -> int {
    let q = spec_div_fix(r, crate::PI_FIX as int);
    let s = 4 * spec_mul_fix(q, (FIXED_ONE as int) - q);
    s - spec_mul_fix(SIN_CORRECTION as int, spec_mul_fix(s, (FIXED_ONE as int) - s))
}

/// The fast fixed-point sine: the phase is folded into one turn, the second
/// half of the turn is the negated first half.
pub open spec fn spec_sin_fix(phase: int) -> int {
    let r0 = phase % (crate::PI2 as int);
    if r0 < crate::PI_FIX {
        spec_half_sin(r0)
    } else {
        -spec_half_sin(r0 - crate::PI_FIX)
    }
}

/// The half-turn sine stays within `[0, 1]` in fixed point.
pub proof fn lemma_half_sin_bounds(r: int)
    requires
        0 <= r <= crate::PI_FIX,
    ensures
        0 <= spec_half_sin(r) <= FIXED_ONE as int,
{
    let q = spec_div_fix(r, crate::PI_FIX as int);
    assert(r * (FIXED_ONE as int) <= (crate::PI_FIX as int) * (FIXED_ONE as int)
        && r * (FIXED_ONE as int) >= 0) by (nonlinear_arith)
        requires
            0 <= r <= crate::PI_FIX,
    ;
    lemma_div_is_ordered(
        r * (FIXED_ONE as int),
        (crate::PI_FIX as int) * (FIXED_ONE as int),
        crate::PI_FIX as int,
    );
    lemma_div_multiples_vanish(FIXED_ONE as int, crate::PI_FIX as int);
    lemma_div_is_ordered(0, r * (FIXED_ONE as int), crate::PI_FIX as int);
    assert(0 <= q <= FIXED_ONE as int);
    let s1 = spec_mul_fix(q, (FIXED_ONE as int) - q);
    assert(q * ((FIXED_ONE as int) - q) <= 0x4000_0000_0000_0000
        && q * ((FIXED_ONE as int) - q) >= 0) by (nonlinear_arith)
        requires
            0 <= q <= FIXED_ONE as int,
    ;
    lemma_div_is_ordered(q * ((FIXED_ONE as int) - q), 0x4000_0000_0000_0000, FIXED_ONE as int);
    lemma_div_multiples_vanish(0x4000_0000, FIXED_ONE as int);
    lemma_div_is_ordered(0, q * ((FIXED_ONE as int) - q), FIXED_ONE as int);
    assert(0 <= s1 <= 0x4000_0000);
    let s = 4 * s1;
    lemma_mul_fix_le_one(s, (FIXED_ONE as int) - s);
    let t = spec_mul_fix(s, (FIXED_ONE as int) - s);
    lemma_mul_fix_le_one(t, SIN_CORRECTION as int);
    assert((SIN_CORRECTION as int) * t == t * (SIN_CORRECTION as int));
    lemma_mul_fix_bounds(SIN_CORRECTION as int, t, FIXED_ONE as int, FIXED_ONE as int);
}

/// The fast sine stays within `[-1, 1]` in fixed point, for any phase.
pub proof fn lemma_sin_fix_bounds(p: int)
    ensures
        -(FIXED_ONE as int) <= spec_sin_fix(p) <= FIXED_ONE as int,
{
    let r0 = p % (crate::PI2 as int);
    vstd::arithmetic::div_mod::lemma_mod_division_less_than_divisor(p, crate::PI2 as int);
    vstd::arithmetic::div_mod::lemma_mod_bound(p, crate::PI2 as int);
    if r0 < crate::PI_FIX {
        lemma_half_sin_bounds(r0);
    } else {
        lemma_half_sin_bounds(r0 - crate::PI_FIX);
    }
}

/// The sine of a phase within the first half turn, in `[0, 1]` fixed point.
fn half_sin(r: i64) -> (out: i64)
    requires
        0 <= r <= crate::PI_FIX,
    ensures
        out == spec_half_sin(r as int),
        0 <= out <= FIXED_ONE,
{
    proof {
        lemma_div_is_ordered(
            (r as int) * (FIXED_ONE as int),
            (crate::PI_FIX as int) * (FIXED_ONE as int),
            crate::PI_FIX as int,
        );
        lemma_div_multiples_vanish(FIXED_ONE as int, crate::PI_FIX as int);
        assert((r as int) * (FIXED_ONE as int) <= (crate::PI_FIX as int) * (FIXED_ONE as int))
            by (nonlinear_arith)
            requires
                0 <= r <= crate::PI_FIX,
        ;
        lemma_div_pos_is_pos((r as int) * (FIXED_ONE as int), crate::PI_FIX as int);
    }
    let q: i64 = div_fix(r, crate::PI_FIX);
    proof {
        assert((q as int) * ((FIXED_ONE as int) - (q as int)) * 4 <= (FIXED_ONE as int) * (
        FIXED_ONE as int)) by (nonlinear_arith)
            requires
                0 <= q <= FIXED_ONE as int,
        ;
        lemma_mul_fix_bounds(q as int, (FIXED_ONE as int) - (q as int), FIXED_ONE as int, FIXED_ONE as int);
        assert(4 * ((q as int) * ((FIXED_ONE as int) - (q as int))) <= 4 * (
        0x4000_0000_0000_0000 as int)) by (nonlinear_arith)
            requires
                0 <= q <= FIXED_ONE as int,
        ;
        lemma_div_is_ordered(
            (q as int) * ((FIXED_ONE as int) - (q as int)),
            0x4000_0000_0000_0000,
            FIXED_ONE as int,
        );
        lemma_div_multiples_vanish(0x4000_0000, FIXED_ONE as int);
    }
    let s1: i64 = mul_fix(q, FIXED_ONE - q);
    let s: i64 = 4 * s1;
    proof {
        lemma_mul_fix_le_one(s as int, (FIXED_ONE as int) - (s as int));
    }
    let t: i64 = mul_fix(s, FIXED_ONE - s);
    proof {
        lemma_mul_fix_le_one(t as int, SIN_CORRECTION as int);
        assert((SIN_CORRECTION as int) * (t as int) == (t as int) * (SIN_CORRECTION as int));
        lemma_mul_fix_bounds(SIN_CORRECTION as int, t as int, FIXED_ONE as int, FIXED_ONE as int);
    }
    let c: i64 = mul_fix(SIN_CORRECTION, t);
    s - c
}

/// The fast fixed-point sine of a non-negative phase, exact with respect to
/// its specification and always within `[-1, 1]` in fixed point.
pub fn sin_fix(phase: i64) -> (r: i64)
    requires
        0 <= phase,
    ensures
        r == spec_sin_fix(phase as int),
        -FIXED_ONE <= r <= FIXED_ONE,
{
    let r0: i64 = mod_fix(phase, crate::PI2);
    if r0 < crate::PI_FIX {
        half_sin(r0)
    } else {
        let h = half_sin(r0 - crate::PI_FIX);
        -h
    }
}

/// The fixed-point product of two signed values, rounded toward zero on
/// each sign combination as the executable code rounds.
pub open spec fn spec_mul_fix_signed(a: int, b: int) -> int {
    if b >= 0 {
        spec_mul_fix(a, b)
    } else {
        -spec_mul_fix(a, -b)
    }
}

/// Multiplies two signed fixed-point values exactly.
pub fn mul_fix_signed(a: i64, b: i64) -> (r: i64)
    requires
        -0x7fff_ffff_ffff_ffff <= a,
        -0x7fff_ffff_ffff_ffff <= b,
        (if a >= 0 {
            a as int
        } else {
            -a as int
        }) * (if b >= 0 {
            b as int
        } else {
            -b as int
        }) <= 0x7fff_ffff_ffff_ffff * (FIXED_ONE as int),
    ensures
        r == spec_mul_fix_signed(a as int, b as int),
{
    if b >= 0 {
        mul_fix(a, b)
    } else {
        let m = mul_fix(a, -b);
        -m
    }
}

/// Normalizing a value downward: halve until it is below two, counting the
/// halvings.
pub open spec fn spec_log2_down(y: int, k: int) -> (int, int)
    decreases y,
{
    if y >= 2 * (FIXED_ONE as int) && y >= 0 {
        spec_log2_down(y / 2, k + 1)
    } else {
        (y, k)
    }
}

/// Normalizing a value upward: double until it reaches one, counting the
/// doublings.
pub open spec fn spec_log2_up(y: int, k: int) -> (int, int)
    decreases 2 * (FIXED_ONE as int) - y,
{
    if 1 <= y < FIXED_ONE as int {
        spec_log2_up(2 * y, k - 1)
    } else {
        (y, k)
    }
}

/// The binary-logarithm fraction bits: square the mantissa and take the
/// carry bit, `32 - i` times.
pub open spec fn spec_log2_frac(y: int, f: int, i: nat) -> int
    decreases 32 - i,
{
    if i >= 32 {
        f
    } else {
        let y2 = (y * y) / (FIXED_ONE as int);
        if y2 >= 2 * (FIXED_ONE as int) {
            spec_log2_frac(y2 / 2, 2 * f + 1, i + 1)
        } else {
            spec_log2_frac(y2, 2 * f, i + 1)
        }
    }
}

/// The fixed-point binary logarithm, as this library computes it: the
/// characteristic from normalization, the mantissa bits from squaring.
pub open spec fn spec_log2_fix(x: int) -> int {
    let (y1, k1) = spec_log2_down(x, 0);
    let (y2, k2) = spec_log2_up(y1, k1);
    k2 * (FIXED_ONE as int) + spec_log2_frac(y2, 0, 0)
}

/// The fixed-point binary logarithm of a value between one sixteenth and
/// sixteen; the result lies between minus four and five.
#[verifier::rlimit(100)]
pub fn log2_fix(x: i64) -> (r: i64)
    requires
        0x1000_0000 <= x <= 0x10_0000_0000,
    ensures
        r == spec_log2_fix(x as int),
        -4 * FIXED_ONE <= r <= 5 * FIXED_ONE,
{
    proof {
        vstd::arithmetic::power2::lemma2_to64();
        vstd::arithmetic::div_mod::lemma_div_basics(x as int);
    }
    let mut y: i64 = x;
    let mut k: i64 = 0;
    while y >= 2 * FIXED_ONE
        invariant
            0x1000_0000 <= x <= 0x10_0000_0000,
            0x1000_0000 <= y <= 0x10_0000_0000,
            0 <= k <= 4,
            y as int == (x as int) / (vstd::arithmetic::power2::pow2(k as nat) as int),
            spec_log2_down(y as int, k as int) == spec_log2_down(x as int, 0),
        decreases y,
    {
        proof {
            vstd::arithmetic::power2::lemma2_to64();
            let p = vstd::arithmetic::power2::pow2(k as nat) as int;
            vstd::arithmetic::power2::lemma_pow2_pos(k as nat);
            vstd::arithmetic::div_mod::lemma_fundamental_div_mod(x as int, p);
            assert(x as int >= p * (2 * (FIXED_ONE as int))) by (nonlinear_arith)
                requires
                    x as int == p * ((x as int) / p) + (x as int) % p,
                    (x as int) % p >= 0,
                    (x as int) / p >= 2 * (FIXED_ONE as int),
                    p >= 1,
            ;
            assert(p <= 8) by (nonlinear_arith)
                requires
                    x as int >= p * (2 * (FIXED_ONE as int)),
                    x <= 0x10_0000_0000,
                    p >= 1,
            ;
            if k > 3 {
                vstd::arithmetic::power2::lemma_pow2_strictly_increases(3, k as nat);
            }
            vstd::arithmetic::div_mod::lemma_div_denominator(x as int, p, 2);
            vstd::arithmetic::power2::lemma_pow2_unfold((k + 1) as nat);
            assert(p * 2 == vstd::arithmetic::power2::pow2((k + 1) as nat) as int)
                by (nonlinear_arith)
                requires
                    vstd::arithmetic::power2::pow2((k + 1) as nat) == 2
                        * vstd::arithmetic::power2::pow2(k as nat),
                    p == vstd::arithmetic::power2::pow2(k as nat) as int,
            ;
            assert(spec_log2_down(y as int, k as int) == spec_log2_down(
                (y as int) / 2,
                k as int + 1,
            ));
        }
        y = y / 2;
        k = k + 1;
    }
    let ghost down = spec_log2_down(x as int, 0);
    proof {
        assert(spec_log2_down(y as int, k as int) == (y as int, k as int));
    }
    let ghost y_mid = y as int;
    let ghost k_mid = k as int;
    proof {
        assert(vstd::arithmetic::power2::pow2(0) == 1) by {
            vstd::arithmetic::power2::lemma2_to64();
        }
        assert(y as int == y_mid * (vstd::arithmetic::power2::pow2(0) as int));
    }
    while y < FIXED_ONE
        invariant
            0x1000_0000 <= y_mid <= 0x10_0000_0000,
            0x1000_0000 <= y < 2 * FIXED_ONE,
            k_mid - 4 <= k <= k_mid,
            0 <= k_mid <= 4,
            y as int == y_mid * (vstd::arithmetic::power2::pow2((k_mid - k) as nat) as int),
            down == spec_log2_down(x as int, 0),
            (y_mid, k_mid) == down,
            spec_log2_up(y as int, k as int) == spec_log2_up(down.0, down.1),
        decreases 2 * FIXED_ONE - y,
    {
        proof {
            vstd::arithmetic::power2::lemma2_to64();
            let j = (k_mid - k) as nat;
            let p = vstd::arithmetic::power2::pow2(j) as int;
            vstd::arithmetic::power2::lemma_pow2_pos(j);
            assert(p <= 15) by (nonlinear_arith)
                requires
                    y as int == y_mid * p,
                    y < 0x1_0000_0000,
                    y_mid >= 0x1000_0000,
                    p >= 1,
            ;
            if j > 4 {
                vstd::arithmetic::power2::lemma_pow2_strictly_increases(4, j);
            }
            assert(j <= 3);
            vstd::arithmetic::power2::lemma_pow2_unfold((j + 1) as nat);
            assert(2 * (y as int) == y_mid * (vstd::arithmetic::power2::pow2(j + 1) as int))
                by (nonlinear_arith)
                requires
                    y as int == y_mid * p,
                    vstd::arithmetic::power2::pow2(j + 1) == 2 * vstd::arithmetic::power2::pow2(j),
                    p == vstd::arithmetic::power2::pow2(j) as int,
            ;
            assert(spec_log2_up(y as int, k as int) == spec_log2_up(2 * (y as int), k as int - 1));
        }
        y = y * 2;
        k = k - 1;
    }
    proof {
        assert(spec_log2_up(y as int, k as int) == (y as int, k as int));
    }
    let ghost up = spec_log2_up(down.0, down.1);
    let mut f: i64 = 0;
    let mut i: usize = 0;
    while i < 32
        invariant
            0 <= i <= 32,
            FIXED_ONE <= y < 2 * FIXED_ONE,
            0 <= f,
            f < vstd::arithmetic::power2::pow2(i as nat),
            vstd::arithmetic::power2::pow2(i as nat) <= 0x1_0000_0000,
            -4 <= k <= 4,
            up == spec_log2_up(down.0, down.1),
            k == up.1,
            spec_log2_frac(y as int, f as int, i as nat) == spec_log2_frac(up.0, 0, 0),
        decreases 32 - i,
    {
        proof {
            vstd::arithmetic::power2::lemma2_to64();
            assert((y as int) * (y as int) < (2 * (FIXED_ONE as int)) * (2 * (FIXED_ONE as int))
                && (y as int) * (y as int) >= (FIXED_ONE as int) * (FIXED_ONE as int))
                by (nonlinear_arith)
                requires
                    FIXED_ONE as int <= y < 2 * (FIXED_ONE as int),
            ;
            lemma_div_is_ordered(
                (y as int) * (y as int),
                (2 * (FIXED_ONE as int)) * (2 * (FIXED_ONE as int)),
                FIXED_ONE as int,
            );
            lemma_div_is_ordered(
                (FIXED_ONE as int) * (FIXED_ONE as int),
                (y as int) * (y as int),
                FIXED_ONE as int,
            );
            lemma_div_multiples_vanish(4 * (FIXED_ONE as int), FIXED_ONE as int);
            lemma_div_multiples_vanish(FIXED_ONE as int, FIXED_ONE as int);
            vstd::arithmetic::power2::lemma_pow2_unfold((i + 1) as nat);
            if i + 1 < 32 {
                vstd::arithmetic::power2::lemma_pow2_strictly_increases((i + 1) as nat, 32);
            }
            vstd::arithmetic::power2::lemma2_to64();
        }
        let yu: u64 = y as u64;
        proof {
            assert(yu as int == y as int);
            assert((yu as int) * (yu as int) < 0x2_0000_0000 * 0x2_0000_0000)
                by (nonlinear_arith)
                requires
                    0 <= yu < 0x2_0000_0000,
            ;
        }
        let p: u128 = (yu as u128) * (yu as u128);
        let y2: i64 = (p / (FIXED_ONE as u128)) as i64;
        proof {
            if y2 as int >= 2 * (FIXED_ONE as int) {
                assert(spec_log2_frac(y as int, f as int, i as nat) == spec_log2_frac(
                    (y2 as int) / 2,
                    2 * (f as int) + 1,
                    (i + 1) as nat,
                ));
            } else {
                assert(spec_log2_frac(y as int, f as int, i as nat) == spec_log2_frac(
                    y2 as int,
                    2 * (f as int),
                    (i + 1) as nat,
                ));
            }
        }
        if y2 >= 2 * FIXED_ONE {
            y = y2 / 2;
            f = 2 * f + 1;
        } else {
            y = y2;
            f = 2 * f;
        }
        i = i + 1;
    }
    proof {
        vstd::arithmetic::power2::lemma2_to64();
        assert(spec_log2_frac(y as int, f as int, 32) == f as int);
    }
    k * FIXED_ONE + f
}

/// The fixed-point binary exponential of a bounded signed exponent, as this
/// library computes it: whole powers become shifts, the fraction a product
/// of square-root factors.
pub open spec fn spec_exp2_fix(e: int) -> int {
    if e >= 0 {
        let k = e / (FIXED_ONE as int);
        let f = e % (FIXED_ONE as int);
        if f == 0 {
            (FIXED_ONE as int) * (vstd::arithmetic::power2::pow2(k as nat) as int)
        } else {
            (2 * (spec_exp2_neg_frac(((FIXED_ONE as int) - f) as nat) as int)) * (
            vstd::arithmetic::power2::pow2(k as nat) as int)
        }
    } else {
        let m = -e;
        let k = m / (FIXED_ONE as int);
        let f = m % (FIXED_ONE as int);
        (spec_exp2_neg_frac(f as nat) / vstd::arithmetic::power2::pow2(k as nat)) as int
    }
}

/// The fixed-point binary exponential of an exponent between minus sixteen
/// and sixteen; the result stays within the working range.
pub fn exp2_fix(e: i64) -> (r: i64)
    requires
        -16 * FIXED_ONE <= e <= 16 * FIXED_ONE,
    ensures
        r == spec_exp2_fix(e as int),
        0 <= r <= 0x2_0000 * FIXED_ONE,
{
    proof {
        vstd::arithmetic::power2::lemma2_to64();
    }
    if e >= 0 {
        let k: u64 = (e as u64) / (FIXED_ONE as u64);
        let f: u64 = (e as u64) % (FIXED_ONE as u64);
        proof {
            lemma_div_is_ordered(e as int, 16 * (FIXED_ONE as int), FIXED_ONE as int);
            lemma_div_multiples_vanish(16, FIXED_ONE as int);
        }
        let base: u64;
        if f == 0 {
            base = FIXED_ONE as u64;
        } else {
            let g = exp2_neg_frac((FIXED_ONE as u64) - f);
            base = 2 * g;
        }
        let mut m: u64 = base;
        let mut j: u64 = 0;
        while j < k
            invariant
                0 <= j <= k <= 16,
                0 < base <= 0x2_0000_0000 || (base == 0 && true),
                base <= 0x2_0000_0000,
                m as int == (base as int) * (vstd::arithmetic::power2::pow2(j as nat) as int),
                m <= 0x2_0000_0000_0000,
            decreases k - j,
        {
            proof {
                vstd::arithmetic::power2::lemma_pow2_unfold((j + 1) as nat);
                vstd::arithmetic::power2::lemma_pow2_pos(j as nat);
                if j + 1 < 16 {
                    vstd::arithmetic::power2::lemma_pow2_strictly_increases((j + 1) as nat, 16);
                }
                vstd::arithmetic::power2::lemma2_to64();
                assert((base as int) * (vstd::arithmetic::power2::pow2((j + 1) as nat) as int)
                    == 2 * ((base as int) * (vstd::arithmetic::power2::pow2(j as nat) as int))
                    && (base as int) * (vstd::arithmetic::power2::pow2((j + 1) as nat) as int)
                    <= 0x2_0000_0000 * 0x1_0000) by (nonlinear_arith)
                    requires
                        vstd::arithmetic::power2::pow2((j + 1) as nat) == 2
                            * vstd::arithmetic::power2::pow2(j as nat),
                        vstd::arithmetic::power2::pow2((j + 1) as nat) <= 0x1_0000,
                        0 <= base <= 0x2_0000_0000,
                        vstd::arithmetic::power2::pow2(j as nat) >= 1,
                ;
            }
            m = m * 2;
            j = j + 1;
        }
        proof {
            if k < 16 {
                vstd::arithmetic::power2::lemma_pow2_strictly_increases(k as nat, 16);
            }
            vstd::arithmetic::power2::lemma_pow2_pos(k as nat);
            assert((base as int) * (vstd::arithmetic::power2::pow2(k as nat) as int)
                <= 0x2_0000_0000 * 0x1_0000 && 0 <= (base as int) * (
            vstd::arithmetic::power2::pow2(k as nat) as int)) by (nonlinear_arith)
                requires
                    0 <= base <= 0x2_0000_0000,
                    1 <= vstd::arithmetic::power2::pow2(k as nat) <= 0x1_0000,
            ;
        }
        m as i64
    } else {
        let neg: u64 = (-e) as u64;
        let k: u64 = neg / (FIXED_ONE as u64);
        let f: u64 = neg % (FIXED_ONE as u64);
        proof {
            lemma_div_is_ordered(neg as int, 16 * (FIXED_ONE as int), FIXED_ONE as int);
            lemma_div_multiples_vanish(16, FIXED_ONE as int);
        }
        let e0: u64 = exp2_neg_frac(f);
        let mut m: u64 = e0;
        let mut j: u64 = 0;
        while j < k
            invariant
                0 <= j <= k <= 16,
                e0 == spec_exp2_neg_frac(f as nat),
                e0 <= 0x1_0000_0000,
                m as nat == spec_exp2_neg_frac(f as nat) / vstd::arithmetic::power2::pow2(j as nat),
                m <= 0x1_0000_0000,
            decreases k - j,
        {
            proof {
                vstd::arithmetic::power2::lemma_pow2_unfold((j + 1) as nat);
                vstd::arithmetic::power2::lemma_pow2_pos(j as nat);
                vstd::arithmetic::div_mod::lemma_div_denominator(
                    e0 as int,
                    vstd::arithmetic::power2::pow2(j as nat) as int,
                    2,
                );
                assert(vstd::arithmetic::power2::pow2(j as nat) as int * 2
                    == vstd::arithmetic::power2::pow2((j + 1) as nat) as int) by (nonlinear_arith)
                    requires
                        vstd::arithmetic::power2::pow2((j + 1) as nat) == 2
                            * vstd::arithmetic::power2::pow2(j as nat),
                ;
            }
            m = m / 2;
            j = j + 1;
        }
        m as i64
    }
}

/// The fixed-point power `base ^ exponent` for a base between one sixteenth
/// and sixteen and an exponent between minus one and one, computed through
/// the binary logarithm and exponential.
pub open spec fn spec_pow_fix(base: int, exponent: int) -> int {
    spec_exp2_fix(spec_mul_fix_signed(exponent, spec_log2_fix(base)))
}

/// Raises a bounded base to a bounded exponent, exactly as `spec_pow_fix`
/// states it. The result never exceeds thirty-two in fixed point.
pub fn pow_fix(base: i64, exponent: i64) -> (r: i64)
    requires
        0x1000_0000 <= base <= 0x10_0000_0000,
        -FIXED_ONE <= exponent <= FIXED_ONE,
    ensures
        r == spec_pow_fix(base as int, exponent as int),
        0 <= r <= 0x20 * FIXED_ONE,
{
    let l = log2_fix(base);
    proof {
        let ex = exponent as int;
        let li = l as int;
        assert((if ex >= 0 {
            ex
        } else {
            -ex
        }) * (if li >= 0 {
            li
        } else {
            -li
        }) <= 0x7fff_ffff_ffff_ffff * (FIXED_ONE as int)) by (nonlinear_arith)
            requires
                -(FIXED_ONE as int) <= ex <= FIXED_ONE as int,
                -5 * (FIXED_ONE as int) <= li <= 5 * (FIXED_ONE as int),
        ;
    }
    let e = mul_fix_signed(exponent, l);
    proof {
        let ex = exponent as int;
        let li = l as int;
        if li >= 0 {
            lemma_mul_fix_abs_bounds(ex, li, FIXED_ONE as int, 5 * (FIXED_ONE as int));
        } else {
            lemma_mul_fix_abs_bounds(ex, -li, FIXED_ONE as int, 5 * (FIXED_ONE as int));
        }
        assert((FIXED_ONE as int) * (5 * (FIXED_ONE as int)) / (FIXED_ONE as int) <= 16 * (
        FIXED_ONE as int));
    }
    let p = exp2_fix(e);
    proof {
        exp2_within_pow_bound(e as int);
    }
    p
}

/// A binary exponential of an exponent of magnitude at most five turns of
/// one stays at most thirty-two in fixed point.
proof fn exp2_within_pow_bound(e: int)
    requires
        -5 * (FIXED_ONE as int) <= e <= 5 * (FIXED_ONE as int),
    ensures
        0 <= spec_exp2_fix(e) <= 0x20 * (FIXED_ONE as int),
{
    vstd::arithmetic::power2::lemma2_to64();
    if e >= 0 {
        let k = e / (FIXED_ONE as int);
        vstd::arithmetic::div_mod::lemma_div_is_ordered(e, 5 * (FIXED_ONE as int), FIXED_ONE as int);
        assert(5 * (FIXED_ONE as int) / (FIXED_ONE as int) == 5);
        vstd::arithmetic::div_mod::lemma_div_pos_is_pos(e, FIXED_ONE as int);
        assert(0 <= k <= 5);
        assert(vstd::arithmetic::power2::pow2(k as nat) <= 32) by {
            if k < 5 {
                vstd::arithmetic::power2::lemma_pow2_strictly_increases(k as nat, 5);
            }
        }
        let f = e % (FIXED_ONE as int);
        if f == 0 {
            assert((FIXED_ONE as int) * (vstd::arithmetic::power2::pow2(k as nat) as int) <= (
            FIXED_ONE as int) * 32) by (nonlinear_arith)
                requires
                    vstd::arithmetic::power2::pow2(k as nat) <= 32,
            ;
            assert((FIXED_ONE as int) * (vstd::arithmetic::power2::pow2(k as nat) as int) >= 0)
                by (nonlinear_arith)
                requires
                    vstd::arithmetic::power2::pow2(k as nat) >= 0,
            ;
        } else {
            vstd::arithmetic::div_mod::lemma_fundamental_div_mod(e, FIXED_ONE as int);
            assert(k <= 4);
            assert(vstd::arithmetic::power2::pow2(k as nat) <= 16) by {
                if k < 4 {
                    vstd::arithmetic::power2::lemma_pow2_strictly_increases(k as nat, 4);
                }
            }
            let g = spec_exp2_neg_frac(((FIXED_ONE as int) - f) as nat);
            lemma_exp2_neg_frac_bound(((FIXED_ONE as int) - f) as nat);
            assert((2 * g) * (vstd::arithmetic::power2::pow2(k as nat) as int) <= (2 * (
            FIXED_ONE as int)) * 16) by (nonlinear_arith)
                requires
                    0 <= g <= FIXED_ONE as int,
                    0 <= vstd::arithmetic::power2::pow2(k as nat) <= 16,
            ;
            assert((2 * g) * (vstd::arithmetic::power2::pow2(k as nat) as int) >= 0)
                by (nonlinear_arith)
                requires
                    0 <= g,
                    0 <= vstd::arithmetic::power2::pow2(k as nat),
            ;
        }
    } else {
        let m = -e;
        let k = m / (FIXED_ONE as int);
        let f = m % (FIXED_ONE as int);
        lemma_exp2_neg_frac_bound(f as nat);
        vstd::arithmetic::power2::lemma_pow2_pos(k as nat);
        vstd::arithmetic::div_mod::lemma_div_is_ordered(
            0,
            spec_exp2_neg_frac(f as nat) as int,
            vstd::arithmetic::power2::pow2(k as nat) as int,
        );
        vstd::arithmetic::div_mod::lemma_div_is_ordered_by_denominator(
            spec_exp2_neg_frac(f as nat) as int,
            1,
            vstd::arithmetic::power2::pow2(k as nat) as int,
        );
        vstd::arithmetic::div_mod::lemma_div_basics(spec_exp2_neg_frac(f as nat) as int);
    }
}

/// The bit-by-bit binary exponential of a fraction never exceeds one in
/// fixed point.
proof fn lemma_exp2_neg_frac_bound(f: nat)
    ensures
        0 <= spec_exp2_neg_frac(f) <= FIXED_ONE as nat,
{
    lemma_exp2_step_bound(0x1_0000_0000, f, 0);
}

/// The running product of the binary-exponential steps never grows.
proof fn lemma_exp2_step_bound(result: nat, rem: nat, i: nat)
    requires
        result <= 0x1_0000_0000,
    ensures
        spec_exp2_step(result, rem, i) <= result,
    decreases 32 - i,
{
    if i >= 32 {
    } else {
        let rem2 = 2 * rem;
        if rem2 >= 0x1_0000_0000 {
            let nr = (result * spec_exp2_factor(i)) / 0x1_0000_0000;
            lemma_exp2_factor_fits(i);
            assert(result * spec_exp2_factor(i) <= result * 0x1_0000_0000) by (nonlinear_arith)
                requires
                    spec_exp2_factor(i) <= 0x1_0000_0000,
                    result >= 0,
            ;
            lemma_div_is_ordered(
                (result * spec_exp2_factor(i)) as int,
                (result * 0x1_0000_0000) as int,
                0x1_0000_0000,
            );
            lemma_div_multiples_vanish(result as int, 0x1_0000_0000);
            lemma_exp2_step_bound(nr, (rem2 - 0x1_0000_0000) as nat, i + 1);
        } else {
            lemma_exp2_step_bound(result, rem2, i + 1);
        }
    }
}

/// Every factor of the binary-exponential chain fits below one in fixed
/// point.
proof fn lemma_exp2_factor_fits(i: nat)
    ensures
        spec_exp2_factor(i) <= 0x1_0000_0000,
    decreases i,
{
    if i == 0 {
        lemma_isqrt_exists(0x8000_0000_0000_0000);
        let s = spec_isqrt(0x8000_0000_0000_0000);
        assert(s * s <= 0x8000_0000_0000_0000 && (s + 1) * (s + 1) > 0x8000_0000_0000_0000);
        assert(s <= 0x1_0000_0000) by (nonlinear_arith)
            requires
                s * s <= 0x8000_0000_0000_0000,
        ;
    } else {
        lemma_exp2_factor_fits((i - 1) as nat);
        let p = spec_exp2_factor((i - 1) as nat);
        lemma_isqrt_exists(p * 0x1_0000_0000);
        let s = spec_isqrt(p * 0x1_0000_0000);
        assert(s * s <= p * 0x1_0000_0000 && (s + 1) * (s + 1) > p * 0x1_0000_0000);
        assert(s <= 0x1_0000_0000) by (nonlinear_arith)
            requires
                s * s <= p * 0x1_0000_0000,
                p <= 0x1_0000_0000,
    ;
    }
}

/// The sum of the first `n` elements of a sequence of fixed-point values.
pub open spec fn spec_sum_fix(s: Seq<SampleCalc>, n: int) -> int
    decreases n,
{
    if n <= 0 {
        0
    } else {
        spec_sum_fix(s, n - 1) + s[n - 1]
    }
}

/// The sum of the first `n` normalized weights: each weight divided by the
/// common total, in fixed point.
pub open spec fn spec_norm_sum(s: Seq<SampleCalc>, total: int, n: int) -> int
    decreases n,
{
    if n <= 0 {
        0
    } else {
        spec_norm_sum(s, total, n - 1) + spec_div_fix(s[n - 1] as int, total)
    }
}

/// A prefix sum of non-negative values is non-negative and bounded by the
/// count times the largest element bound.
pub proof fn lemma_sum_fix_bounds(s: Seq<SampleCalc>, n: int, bound: int)
    requires
        0 <= n <= s.len(),
        forall|i: int| 0 <= i < n ==> 0 <= #[trigger] s[i] <= bound,
        0 <= bound,
    ensures
        0 <= spec_sum_fix(s, n) <= n * bound,
    decreases n,
{
    if n <= 0 {
    } else {
        lemma_sum_fix_bounds(s, n - 1, bound);
        assert((n - 1) * bound + bound == n * bound) by (nonlinear_arith);
    }
}

/// Each element is at most the whole sum, when all elements are
/// non-negative.
pub proof fn lemma_sum_fix_element_le(s: Seq<SampleCalc>, n: int, j: int)
    requires
        0 <= j < n <= s.len(),
        forall|i: int| 0 <= i < n ==> 0 <= #[trigger] s[i],
    ensures
        s[j] <= spec_sum_fix(s, n),
    decreases n,
{
    if j == n - 1 {
        lemma_sum_fix_bounds(s, n - 1, 0x7fff_ffff_ffff_ffff);
    } else {
        lemma_sum_fix_element_le(s, n - 1, j);
    }
}

/// Normalization sums to one, up to rounding: dividing `n` non-negative
/// weights by their positive total and adding the rounded-down quotients
/// gives a sum within `n` below one, and never above one.
pub proof fn lemma_norm_sum_close_to_one(s: Seq<SampleCalc>, n: int)
    requires
        0 < n <= s.len(),
        forall|i: int| 0 <= i < n ==> 0 <= #[trigger] s[i],
        spec_sum_fix(s, n) > 0,
    ensures
        (FIXED_ONE as int) - n < spec_norm_sum(s, spec_sum_fix(s, n), n) <= FIXED_ONE as int,
{
    let total = spec_sum_fix(s, n);
    lemma_norm_sum_remainder(s, total, n);
    let q = spec_norm_sum(s, total, n);
    let rest = spec_sum_fix(s, n) * (FIXED_ONE as int) - total * q;
    assert(total * q == total * (FIXED_ONE as int) - rest);
    assert((FIXED_ONE as int) - n < q <= FIXED_ONE as int) by (nonlinear_arith)
        requires
            total * q == total * (FIXED_ONE as int) - rest,
            0 <= rest <= n * (total - 1),
            total > 0,
            n > 0,
    ;
}

/// The remainder of the normalization: the difference between the scaled
/// prefix sum and the total times the normalized prefix sum stays between
/// zero and the count times the total.
proof fn lemma_norm_sum_remainder(s: Seq<SampleCalc>, total: int, n: int)
    requires
        0 <= n <= s.len(),
        forall|i: int| 0 <= i < n ==> 0 <= #[trigger] s[i],
        total > 0,
    ensures
        0 <= spec_sum_fix(s, n) * (FIXED_ONE as int) - total * spec_norm_sum(s, total, n) <= n * (
        total - 1),
    decreases n,
{
    if n <= 0 {
    } else {
        lemma_norm_sum_remainder(s, total, n - 1);
        let a = s[n - 1] as int;
        let q = spec_div_fix(a, total);
        vstd::arithmetic::div_mod::lemma_fundamental_div_mod(a * (FIXED_ONE as int), total);
        let r = (a * (FIXED_ONE as int)) % total;
        assert(a * (FIXED_ONE as int) >= 0) by (nonlinear_arith)
            requires
                a >= 0,
        ;
        assert(a * (FIXED_ONE as int) == total * q + r);
        let sp = spec_sum_fix(s, n - 1);
        let qp = spec_norm_sum(s, total, n - 1);
        assert(spec_sum_fix(s, n) == sp + a);
        assert(spec_norm_sum(s, total, n) == qp + q);
        assert((sp + a) * (FIXED_ONE as int) - total * (qp + q) == (sp * (FIXED_ONE as int) - total
            * qp) + r) by (nonlinear_arith)
            requires
                a * (FIXED_ONE as int) == total * q + r,
        ;
        assert((n - 1) * (total - 1) + (total - 1) == n * (total - 1)) by (nonlinear_arith);
    }
}

/// Fast approximations.
pub trait MathFast {
    /// The mathematical value of the phase this sine is taken at.
    spec fn spec_phase(&self) -> int;

    /// Fast sine: a parabolic approximation with a quadratic correction,
    /// computed entirely in fixed point.
    fn sin_fast(self) -> (r: SampleCalc)
        requires
            0 <= self.spec_phase(),
        ensures
            r == spec_sin_fix(self.spec_phase()),
            -FIXED_ONE <= r <= FIXED_ONE,
    ;
}

impl MathFast for SampleCalc {
    open spec fn spec_phase(&self) -> int {
        *self as int
    }

    fn sin_fast(self) -> (r: SampleCalc) {
        sin_fix(self)
    }
}

/// `d` divides `x`: some integer multiple of `d` equals `x`.
pub open spec fn spec_divides(d: int, x: int) -> bool {
    exists|k: int| x == #[trigger] (d * k)
}

/// The greatest common divisor, by Euclid's recurrence.
pub open spec fn spec_gcd(a: nat, b: nat) -> nat
    decreases b,
{
    if b == 0 {
        a
    } else {
        spec_gcd(b, a % b)
    }
}

/// The greatest common divisor divides both of its arguments.
pub proof fn lemma_gcd_divides(a: nat, b: nat)
    ensures
        spec_divides(spec_gcd(a, b) as int, a as int),
        spec_divides(spec_gcd(a, b) as int, b as int),
    decreases b,
{
    if b == 0 {
        assert(a as int == (a as int) * 1);
        assert(b as int == (a as int) * 0);
    } else {
        lemma_gcd_divides(b, a % b);
        let g = spec_gcd(b, a % b) as int;
        let k1 = choose|k: int| b as int == #[trigger] (g * k);
        let k2 = choose|k: int| (a % b) as int == #[trigger] (g * k);
        let q = (a as int) / (b as int);
        vstd::arithmetic::div_mod::lemma_fundamental_div_mod(a as int, b as int);
        assert(a as int == g * (k1 * q + k2)) by (nonlinear_arith)
            requires
                a as int == (b as int) * q + ((a % b) as int),
                b as int == g * k1,
                (a % b) as int == g * k2,
        ;
    }
}

/// Every common divisor of `a` and `b` divides their greatest common divisor.
pub proof fn lemma_gcd_greatest(a: nat, b: nat, d: int)
    requires
        spec_divides(d, a as int),
        spec_divides(d, b as int),
    ensures
        spec_divides(d, spec_gcd(a, b) as int),
    decreases b,
{
    if b == 0 {
    } else {
        let ka = choose|k: int| a as int == #[trigger] (d * k);
        let kb = choose|k: int| b as int == #[trigger] (d * k);
        let q = (a as int) / (b as int);
        vstd::arithmetic::div_mod::lemma_fundamental_div_mod(a as int, b as int);
        assert((a % b) as int == d * (ka - kb * q)) by (nonlinear_arith)
            requires
                a as int == (b as int) * q + ((a % b) as int),
                a as int == d * ka,
                b as int == d * kb,
        ;
        lemma_gcd_greatest(b, a % b, d);
    }
}

/// The greatest common divisor of a positive number and any other number is
/// positive and at most the positive one.
pub proof fn lemma_gcd_pos(a: nat, b: nat)
    requires
        a > 0,
    ensures
        0 < spec_gcd(a, b) <= a,
    decreases b,
{
    lemma_gcd_divides(a, b);
    let g = spec_gcd(a, b) as int;
    let k = choose|kk: int| a as int == #[trigger] (g * kk);
    assert(0 < g <= a as int) by (nonlinear_arith)
        requires
            a as int == g * k,
            a > 0,
            g >= 0,
    ;
}

/// Dividing a positive pair by its greatest common divisor yields an
/// equivalent pair in lowest terms.
pub proof fn lemma_gcd_reduce(n: nat, d: nat)
    requires
        n > 0,
        d > 0,
    ensures
        spec_gcd(n / spec_gcd(n, d), d / spec_gcd(n, d)) == 1,
        (n / spec_gcd(n, d)) * d == (d / spec_gcd(n, d)) * n,
        1 <= n / spec_gcd(n, d) <= n,
        1 <= d / spec_gcd(n, d) <= d,
{
    let g = spec_gcd(n, d) as int;
    lemma_gcd_pos(n, d);
    lemma_gcd_divides(n, d);
    let kn = choose|k: int| n as int == #[trigger] (g * k);
    let kd = choose|k: int| d as int == #[trigger] (g * k);
    assert(kn >= 1 && kd >= 1) by (nonlinear_arith)
        requires
            n as int == g * kn,
            d as int == g * kd,
            n > 0,
            d > 0,
            g > 0,
    ;
    vstd::arithmetic::div_mod::lemma_div_multiples_vanish(kn, g);
    vstd::arithmetic::div_mod::lemma_div_multiples_vanish(kd, g);
    assert((n / spec_gcd(n, d)) as int == kn);
    assert((d / spec_gcd(n, d)) as int == kd);
    let g2 = spec_gcd(kn as nat, kd as nat) as int;
    lemma_gcd_pos(kn as nat, kd as nat);
    lemma_gcd_divides(kn as nat, kd as nat);
    let j1 = choose|k: int| kn == #[trigger] (g2 * k);
    let j2 = choose|k: int| kd == #[trigger] (g2 * k);
    assert(n as int == (g * g2) * j1 && d as int == (g * g2) * j2) by (nonlinear_arith)
        requires
            n as int == g * kn,
            d as int == g * kd,
            kn == g2 * j1,
            kd == g2 * j2,
    ;
    lemma_gcd_greatest(n, d, g * g2);
    let j3 = choose|k: int| g == #[trigger] ((g * g2) * k);
    assert(g2 == 1) by (nonlinear_arith)
        requires
            g == (g * g2) * j3,
            g > 0,
            g2 >= 1,
    ;
    assert(kn * (d as int) == kd * (n as int)) by (nonlinear_arith)
        requires
            n as int == g * kn,
            d as int == g * kd,
    ;
    assert(kn <= n as int && kd <= d as int) by (nonlinear_arith)
        requires
            n as int == g * kn,
            d as int == g * kd,
            g >= 1,
            kn >= 1,
            kd >= 1,
    ;
}

/// Euclid's algorithm for the greatest common divisor.
pub fn gcd_exec(a0: u64, b0: u64) -> (g: u64)
    ensures
        g == spec_gcd(a0 as nat, b0 as nat),
{
    let mut a: u64 = a0;
    let mut b: u64 = b0;
    while b != 0
        invariant
            spec_gcd(a as nat, b as nat) == spec_gcd(a0 as nat, b0 as nat),
        decreases b,
    {
        let t: u64 = a % b;
        a = b;
        b = t;
    }
    a
}

} // verus!
