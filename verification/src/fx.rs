//! Signed 16.16 fixed-point scalars.
//!
//! A raw `i64` value `x` stands for the real number `x / 65536`. Sums,
//! differences and negation saturate at the `i64` range; products and
//! quotients are floored (rounded toward minus infinity) and then
//! saturated. Each executable operation is specified exactly by a spec
//! twin over `int`, so callers can reason about results bit for bit.

use vstd::prelude::*;

verus! {

use vstd::arithmetic::div_mod::lemma_fundamental_div_mod;
use vstd::arithmetic::div_mod::lemma_fundamental_div_mod_converse;

/// Raw units per 1.0: the fixed-point scale.
pub const SCALE: i64 = 65536;

/// Clamp an unbounded integer into the `i64` range.
pub open spec fn sat64(x: int) -> int {
    if x > i64::MAX as int {
        i64::MAX as int
    } else if x < i64::MIN as int {
        i64::MIN as int
    } else {
        x
    }
}

/// Saturating fixed-point sum.
pub open spec fn s_add(a: int, b: int) -> int {
    sat64(a + b)
}

/// Saturating fixed-point difference.
pub open spec fn s_sub(a: int, b: int) -> int {
    sat64(a - b)
}

/// Saturating fixed-point negation.
pub open spec fn s_neg(a: int) -> int {
    sat64(-a)
}

/// Fixed-point product: floor of the scaled product, saturated.
/// (`/` on `int` is Euclidean, which floors for a positive divisor.)
pub open spec fn s_mul(a: int, b: int) -> int {
    sat64((a * b) / (SCALE as int))
}

/// Fixed-point quotient for a positive divisor: floor of the scaled
/// quotient, saturated.
pub open spec fn s_div(a: int, b: int) -> int {
    sat64((a * (SCALE as int)) / b)
}

/// Integer square root: the greatest `r` with `r * r <= n` (0 for `n <= 0`).
pub open spec fn isqrt(n: int) -> int
    decreases n,
{
    if n <= 0 {
        0
    } else {
        let r = isqrt(n - 1);
        if (r + 1) * (r + 1) <= n {
            r + 1
        } else {
            r
        }
    }
}

/// Fixed-point square root of a nonnegative value.
pub open spec fn s_sqrt(a: int) -> int {
    isqrt(a * (SCALE as int))
}

/// Absolute value, saturated.
pub open spec fn s_abs(a: int) -> int {
    if a < 0 {
        sat64(-a)
    } else {
        a
    }
}

/// The smaller of two values.
pub open spec fn s_min(a: int, b: int) -> int {
    if a < b {
        a
    } else {
        b
    }
}

pub proof fn lemma_isqrt_bounds(n: int)
    requires
        n >= 0,
    ensures
        isqrt(n) >= 0,
        isqrt(n) * isqrt(n) <= n,
        n < (isqrt(n) + 1) * (isqrt(n) + 1),
    decreases n,
{
    if n == 0 {
        assert(isqrt(0) == 0);
    } else {
        lemma_isqrt_bounds(n - 1);
        let r = isqrt(n - 1);
        if (r + 1) * (r + 1) <= n {
            assert(n < (r + 2) * (r + 2)) by (nonlinear_arith)
                requires
                    r >= 0,
                    n - 1 < (r + 1) * (r + 1),
            ;
        }
    }
}

pub proof fn lemma_isqrt_unique(n: int, r: int)
    requires
        n >= 0,
        r >= 0,
        r * r <= n,
        n < (r + 1) * (r + 1),
    ensures
        r == isqrt(n),
{
    lemma_isqrt_bounds(n);
    let s = isqrt(n);
    if r < s {
        assert(s * s > n) by (nonlinear_arith)
            requires
                r >= 0,
                r < s,
                n < (r + 1) * (r + 1),
        ;
    }
    if r > s {
        assert(r * r > n) by (nonlinear_arith)
            requires
                s >= 0,
                s < r,
                n < (s + 1) * (s + 1),
        ;
    }
}

/// Saturation keeps order.
pub proof fn lemma_sat_monotone(a: int, b: int)
    requires
        a <= b,
    ensures
        sat64(a) <= sat64(b),
{
}

/// Fixed-point division by a positive divisor keeps the order of the
/// numerators.
pub proof fn lemma_s_div_ordered(n1: int, n2: int, b: int)
    requires
        n1 <= n2,
        b > 0,
    ensures
        s_div(n1, b) <= s_div(n2, b),
{
    vstd::arithmetic::div_mod::lemma_div_is_ordered(
        n1 * (SCALE as int),
        n2 * (SCALE as int),
        b,
    );
    lemma_sat_monotone((n1 * (SCALE as int)) / b, (n2 * (SCALE as int)) / b);
}

/// The floored product keeps order on nonnegative operands.
pub proof fn lemma_s_mul_monotone(a1: int, a2: int, b1: int, b2: int)
    requires
        0 <= a2 <= a1,
        0 <= b2 <= b1,
    ensures
        0 <= s_mul(a2, b2) <= s_mul(a1, b1),
{
    assert(0 <= a2 * b2 && a2 * b2 <= a1 * b1) by (nonlinear_arith)
        requires
            0 <= a2 <= a1,
            0 <= b2 <= b1,
    ;
    vstd::arithmetic::div_mod::lemma_div_pos_is_pos(a2 * b2, SCALE as int);
    vstd::arithmetic::div_mod::lemma_div_is_ordered(a2 * b2, a1 * b1, SCALE as int);
    lemma_sat_monotone((a2 * b2) / (SCALE as int), (a1 * b1) / (SCALE as int));
}

/// A quotient of nonnegative by positive is nonnegative.
pub proof fn lemma_div_nonneg(a: int, b: int)
    requires
        a >= 0,
        b > 0,
    ensures
        s_div(a, b) >= 0,
{
    vstd::arithmetic::div_mod::lemma_div_pos_is_pos(a * (SCALE as int), b);
}

/// Saturate a wide intermediate into an `i64`.
fn sat_from_i128(x: i128) -> (r: i64)
    ensures
        r as int == sat64(x as int),
{
    if x > i64::MAX as i128 {
        i64::MAX
    } else if x < i64::MIN as i128 {
        i64::MIN
    } else {
        x as i64
    }
}

/// Floor division of a wide intermediate by a positive divisor.
fn floor_div_i128(a: i128, b: i128) -> (r: i128)
    requires
        b > 0,
        a != i128::MIN,
    ensures
        r as int == (a as int) / (b as int),
{
    let bu = b as u128;
    if a >= 0 {
        let q = (a as u128) / bu;
        proof {
            assert(q as int == (a as int) / (b as int));
            assert(q <= a as u128) by (nonlinear_arith)
                requires
                    bu >= 1,
                    q == (a as u128) / bu,
            ;
        }
        q as i128
    } else {
        let n = (-a) as u128;
        let q = n / bu;
        let rem = n % bu;
        proof {
            assert(q as int == (n as int) / (b as int));
            assert(rem as int == (n as int) % (b as int));
            lemma_fundamental_div_mod(n as int, b as int);
            assert(n as int == (b as int) * (q as int) + rem as int);
            assert(q <= n) by (nonlinear_arith)
                requires
                    bu >= 1,
                    q == n / bu,
            ;
            if rem == 0 {
                // a == (-q) * b + 0
                assert(a as int == (-(q as int)) * (b as int) + 0) by (nonlinear_arith)
                    requires
                        n as int == (b as int) * (q as int) + rem as int,
                        rem as int == 0,
                        a as int == -(n as int),
                ;
                lemma_fundamental_div_mod_converse(a as int, b as int, -(q as int), 0);
            } else {
                // a == (-q - 1) * b + (b - rem), with 0 < b - rem < b
                assert(a as int == (-(q as int) - 1) * (b as int) + ((b as int) - (rem as int)))
                    by (nonlinear_arith)
                    requires
                        n as int == (b as int) * (q as int) + rem as int,
                        a as int == -(n as int),
                ;
                lemma_fundamental_div_mod_converse(
                    a as int,
                    b as int,
                    -(q as int) - 1,
                    (b as int) - (rem as int),
                );
            }
        }
        if rem == 0 {
            -(q as i128)
        } else {
            -(q as i128) - 1
        }
    }
}

/// Saturating fixed-point addition.
pub fn add_fx(a: i64, b: i64) -> (r: i64)
    ensures
        r as int == s_add(a as int, b as int),
{
    sat_from_i128(a as i128 + b as i128)
}

/// Saturating fixed-point subtraction.
pub fn sub_fx(a: i64, b: i64) -> (r: i64)
    ensures
        r as int == s_sub(a as int, b as int),
{
    sat_from_i128(a as i128 - b as i128)
}

/// Saturating fixed-point negation.
pub fn neg_fx(a: i64) -> (r: i64)
    ensures
        r as int == s_neg(a as int),
{
    sat_from_i128(-(a as i128))
}

/// Fixed-point multiplication: exact floored, saturated product.
pub fn mul_fx(a: i64, b: i64) -> (r: i64)
    ensures
        r as int == s_mul(a as int, b as int),
{
    proof {
        assert((a as int) * (b as int) <= i128::MAX as int && (a as int) * (b as int)
            > i128::MIN as int) by (nonlinear_arith)
            requires
                i64::MIN as int <= a as int <= i64::MAX as int,
                i64::MIN as int <= b as int <= i64::MAX as int,
        ;
    }
    let p = (a as i128) * (b as i128);
    let q = floor_div_i128(p, 65536i128);
    sat_from_i128(q)
}

/// Fixed-point division by a positive divisor: exact floored, saturated
/// quotient.
pub fn div_fx(a: i64, b: i64) -> (r: i64)
    requires
        b > 0,
    ensures
        r as int == s_div(a as int, b as int),
{
    let num = (a as i128) * 65536i128;
    let q = floor_div_i128(num, b as i128);
    sat_from_i128(q)
}

/// Integer square root over a wide operand, by bisection.
fn isqrt_u128(n: u128) -> (r: u128)
    requires
        n < 0x40000000000000000000000000000000u128,
    ensures
        (r as int) * (r as int) <= n as int,
        (n as int) < ((r as int) + 1) * ((r as int) + 1),
{
    let mut lo: u128 = 0;
    let mut hi: u128 = 0x8000000000000000u128;
    proof {
        assert((hi as int) * (hi as int) > n as int);
    }
    while hi - lo > 1
        invariant
            lo < hi,
            hi <= 0x8000000000000000u128,
            (lo as int) * (lo as int) <= n as int,
            (n as int) < (hi as int) * (hi as int),
        decreases hi - lo,
    {
        let mid = lo + (hi - lo) / 2;
        proof {
            assert((mid as int) * (mid as int) < u128::MAX as int) by (nonlinear_arith)
                requires
                    mid < 0x8000000000000000u128,
            ;
        }
        if mid * mid <= n {
            lo = mid;
        } else {
            hi = mid;
        }
    }
    lo
}

/// Fixed-point square root: floored root of a nonnegative value.
pub fn sqrt_fx(a: i64) -> (r: i64)
    requires
        a >= 0,
    ensures
        r as int == s_sqrt(a as int),
        r >= 0,
{
    let n = (a as u128) * 65536u128;
    let root = isqrt_u128(n);
    proof {
        lemma_isqrt_unique(n as int, root as int);
        assert(root < 0x10000000000u128) by (nonlinear_arith)
            requires
                (root as int) * (root as int) <= n as int,
                n < 0x100000000000000000000u128,
        ;
    }
    root as i64
}

/// Truncated Taylor sine, `x - x^3/6 + x^5/120`, over the fixed-point
/// operations. Accurate to a few raw units for angles up to a quarter
/// turn; the contract is the polynomial itself.
pub open spec fn sin_val(x: int) -> int {
    let x2 = s_mul(x, x);
    let x3 = s_mul(x2, x);
    let x5 = s_mul(s_mul(x3, x), x);
    s_add(s_sub(x, s_div(x3, 6 * SCALE as int)), s_div(x5, 120 * SCALE as int))
}

/// Truncated Taylor cosine, `1 - x^2/2 + x^4/24`, over the fixed-point
/// operations.
pub open spec fn cos_val(x: int) -> int {
    let x2 = s_mul(x, x);
    let x4 = s_mul(x2, x2);
    s_add(s_sub(SCALE as int, s_div(x2, 2 * SCALE as int)), s_div(x4, 24 * SCALE as int))
}

/// Tangent as the quotient of the two truncated series.
pub open spec fn tan_val(x: int) -> int {
    s_div(sin_val(x), cos_val(x))
}

pub fn sin_fx(x: i64) -> (r: i64)
    ensures
        r as int == sin_val(x as int),
{
    let x2 = mul_fx(x, x);
    let x3 = mul_fx(x2, x);
    let x5 = mul_fx(mul_fx(x3, x), x);
    add_fx(sub_fx(x, div_fx(x3, 6 * SCALE)), div_fx(x5, 120 * SCALE))
}

pub fn cos_fx(x: i64) -> (r: i64)
    ensures
        r as int == cos_val(x as int),
{
    let x2 = mul_fx(x, x);
    let x4 = mul_fx(x2, x2);
    add_fx(sub_fx(SCALE, div_fx(x2, 2 * SCALE)), div_fx(x4, 24 * SCALE))
}

pub fn tan_fx(x: i64) -> (r: i64)
    requires
        cos_val(x as int) >= 1,
    ensures
        r as int == tan_val(x as int),
{
    let s = sin_fx(x);
    let c = cos_fx(x);
    div_fx(s, c)
}

/// Saturating absolute value.
pub fn abs_fx(a: i64) -> (r: i64)
    ensures
        r as int == s_abs(a as int),
{
    if a < 0 {
        neg_fx(a)
    } else {
        a
    }
}

/// The smaller of two fixed-point values.
pub fn min_fx(a: i64, b: i64) -> (r: i64)
    ensures
        r as int == s_min(a as int, b as int),
{
    if a < b {
        a
    } else {
        b
    }
}

} // verus!
