//! Saturating fixed-point scalar arithmetic.
//!
//! A real quantity `q` is represented by the `i64` raw value
//! `q * SCALE` rounded toward zero.  Every operation clamps its result
//! to `[-FP_MAX, FP_MAX]`, so the arithmetic is total and never
//! overflows; the spec functions below give the exact value of each
//! operation, saturation included.

use vstd::prelude::*;
use vstd::arithmetic::div_mod::*;
use vstd::arithmetic::mul::*;

verus! {

/// Raw units per real unit: the fixed-point value of one.
pub const SCALE: i64 = 1_000_000;

/// Saturation bound of every fixed-point operation.
pub const FP_MAX: i64 = 0x3fff_ffff_ffff_ffff;

pub open spec fn iabs(a: int) -> int {
    if a >= 0 {
        a
    } else {
        -a
    }
}

/// Integer division rounding toward zero, the rounding used by the
/// executable operations (`/` on `int` is Euclidean, so the negative
/// case is spelled out).
pub open spec fn tdiv(a: int, b: int) -> int {
    if (a < 0) != (b < 0) {
        -(iabs(a) / iabs(b))
    } else {
        iabs(a) / iabs(b)
    }
}

/// Clamp a mathematical result into the representable range.
pub open spec fn sat(x: int) -> int {
    if x > FP_MAX {
        FP_MAX as int
    } else if x < -(FP_MAX as int) {
        -(FP_MAX as int)
    } else {
        x
    }
}

pub open spec fn fp_add_spec(a: int, b: int) -> int {
    sat(a + b)
}

pub open spec fn fp_sub_spec(a: int, b: int) -> int {
    sat(a - b)
}

pub open spec fn fp_neg_spec(a: int) -> int {
    sat(-a)
}

pub open spec fn fp_mul_spec(a: int, b: int) -> int {
    sat(tdiv(a * b, SCALE as int))
}

pub open spec fn fp_div_spec(a: int, b: int) -> int {
    sat(tdiv(a * SCALE, b))
}

/// The exact (unscaled) sum of products that a dot product computes.
pub open spec fn dot_sum_spec(ax: int, ay: int, az: int, bx: int, by: int, bz: int) -> int {
    ax * bx + ay * by + az * bz
}

/// `r` is the integer square root of `n`.
pub open spec fn is_isqrt(n: int, r: int) -> bool {
    &&& 0 <= r
    &&& r * r <= n
    &&& n < (r + 1) * (r + 1)
}

pub open spec fn spec_isqrt(n: int) -> int {
    choose|r: int| is_isqrt(n, r)
}

/// Fixed-point square root: `sqrt(a / SCALE) * SCALE`, rounded down.
pub open spec fn fp_sqrt_spec(a: int) -> int {
    spec_isqrt(a * SCALE)
}

/// Saturate an `i128` intermediate into the fixed-point range.
fn saturate(s: i128) -> (r: i64)
    ensures
        r == sat(s as int),
{
    if s > FP_MAX as i128 {
        FP_MAX
    } else if s < -(FP_MAX as i128) {
        -FP_MAX
    } else {
        s as i64
    }
}

pub fn fp_add(a: i64, b: i64) -> (r: i64)
    ensures
        r == fp_add_spec(a as int, b as int),
{
    saturate(a as i128 + b as i128)
}

pub fn fp_sub(a: i64, b: i64) -> (r: i64)
    ensures
        r == fp_sub_spec(a as int, b as int),
{
    saturate(a as i128 - b as i128)
}

pub fn fp_neg(a: i64) -> (r: i64)
    ensures
        r == fp_neg_spec(a as int),
{
    saturate(-(a as i128))
}

/// Truncating division of an `i128` by a positive `i128`, saturated.
pub(crate) fn saturate_quotient(p: i128, d: i128) -> (r: i64)
    requires
        0 < d,
    ensures
        r == sat(tdiv(p as int, d as int)),
{
    let neg: bool = p < 0;
    let m: u128 = if p >= 0 {
        p as u128
    } else {
        proof {
            assert(p >= i128::MIN);
        }
        (-(p + 1)) as u128 + 1
    };
    assert(m == iabs(p as int));
    let md: u128 = d as u128;
    let q: u128 = m / md;
    assert(q == iabs(p as int) / (d as int));
    if q > FP_MAX as u128 {
        if neg {
            -FP_MAX
        } else {
            FP_MAX
        }
    } else {
        let qi: i64 = q as i64;
        if neg {
            -qi
        } else {
            qi
        }
    }
}

pub fn fp_mul(a: i64, b: i64) -> (r: i64)
    ensures
        r == fp_mul_spec(a as int, b as int),
{
    proof {
        assert(i128::MIN <= (a as int) * (b as int) <= i128::MAX) by (nonlinear_arith)
            requires
                i64::MIN <= a <= i64::MAX,
                i64::MIN <= b <= i64::MAX,
        ;
    }
    let p: i128 = (a as i128) * (b as i128);
    saturate_quotient(p, SCALE as i128)
}

pub fn fp_div(a: i64, b: i64) -> (r: i64)
    requires
        b != 0,
    ensures
        r == fp_div_spec(a as int, b as int),
{
    let p: i128 = (a as i128) * (SCALE as i128);
    if b > 0 {
        saturate_quotient(p, b as i128)
    } else {
        proof {
            assert(-0x8000_0000_0000_0000_0000_0000 <= (p as int) <= 0x8000_0000_0000_0000_0000_0000) by (nonlinear_arith)
                requires
                    p == (a as int) * (SCALE as int),
                    i64::MIN <= a <= i64::MAX,
            ;
            assert(tdiv(p as int, b as int) == tdiv(-(p as int), -(b as int)));
        }
        saturate_quotient(-p, -(b as i128))
    }
}

pub proof fn lemma_square_le(x: int, y: int)
    requires
        0 <= x <= y,
    ensures
        x * x <= y * y,
{
    assert(x * x <= y * y) by (nonlinear_arith)
        requires
            0 <= x <= y,
    ;
}

/// The integer square root is unique, so `spec_isqrt` names it.
pub proof fn lemma_isqrt_unique(n: int, r: int)
    requires
        is_isqrt(n, r),
    ensures
        spec_isqrt(n) == r,
{
    let r2 = spec_isqrt(n);
    assert(is_isqrt(n, r2));
    if r < r2 {
        lemma_square_le(r + 1, r2);
        assert(false);
    }
    if r2 < r {
        lemma_square_le(r2 + 1, r);
        assert(false);
    }
}

/// The integer square root is monotone.
pub proof fn lemma_isqrt_le(n1: int, n2: int)
    requires
        0 <= n1 <= n2,
    ensures
        spec_isqrt(n1) <= spec_isqrt(n2),
{
    lemma_isqrt_exists(n1);
    lemma_isqrt_exists(n2);
    let r1 = spec_isqrt(n1);
    let r2 = spec_isqrt(n2);
    if r2 < r1 {
        lemma_square_le(r2 + 1, r1);
        assert(false);
    }
}

pub fn isqrt_u128(n: u128) -> (r: u64)
    ensures
        is_isqrt(n as int, r as int),
        r == spec_isqrt(n as int),
{
    let mut lo: u128 = 0;
    let mut hi: u128 = 0x1_0000_0000_0000_0000;
    proof {
        assert((hi as int) * (hi as int) > n as int) by (nonlinear_arith)
            requires
                hi == 0x1_0000_0000_0000_0000,
                n <= u128::MAX,
        ;
    }
    while lo + 1 < hi
        invariant
            lo < hi <= 0x1_0000_0000_0000_0000,
            (lo as int) * (lo as int) <= n as int,
            (n as int) < (hi as int) * (hi as int),
        decreases hi - lo,
    {
        let mid: u128 = lo + (hi - lo) / 2;
        proof {
            assert((mid as int) * (mid as int) <= u128::MAX) by (nonlinear_arith)
                requires
                    mid < 0x1_0000_0000_0000_0000,
            ;
        }
        let sq: u128 = mid * mid;
        if sq <= n {
            lo = mid;
        } else {
            hi = mid;
        }
    }
    proof {
        assert(hi == lo + 1);
        assert(is_isqrt(n as int, lo as int));
        lemma_isqrt_unique(n as int, lo as int);
    }
    lo as u64
}

pub fn fp_sqrt(a: i64) -> (r: i64)
    requires
        0 <= a,
    ensures
        r == fp_sqrt_spec(a as int),
        is_isqrt((a as int) * (SCALE as int), r as int),
        0 <= r <= FP_MAX,
{
    proof {
        assert((a as int) * (SCALE as int) < 0x8_0000_0000_0000_0000_0000 as int) by (nonlinear_arith)
            requires
                0 <= a <= i64::MAX,
        ;
    }
    let n: u128 = (a as u128) * (SCALE as u128);
    let r64: u64 = isqrt_u128(n);
    proof {
        if r64 as int >= 0x10_0000_0000_0000 as int {
            lemma_square_le(0x10_0000_0000_0000 as int, r64 as int);
            assert(false);
        }
    }
    r64 as i64
}

/// Every nonnegative integer has an integer square root.
pub proof fn lemma_isqrt_exists(n: int)
    requires
        0 <= n,
    ensures
        is_isqrt(n, spec_isqrt(n)),
    decreases n,
{
    if n == 0 {
        assert(is_isqrt(0, 0));
    } else {
        lemma_isqrt_exists(n - 1);
        let r = spec_isqrt(n - 1);
        if n < (r + 1) * (r + 1) {
            assert(is_isqrt(n, r));
        } else {
            assert(n == (r + 1) * (r + 1));
            assert((r + 1) * (r + 1) < (r + 2) * (r + 2)) by (nonlinear_arith)
                requires
                    r >= 0,
            ;
            assert(is_isqrt(n, r + 1));
        }
    }
}

/// Truncating division by a positive divisor is monotone in the
/// numerator.
pub proof fn lemma_tdiv_monotone(n1: int, n2: int, d: int)
    requires
        n1 <= n2,
        0 < d,
    ensures
        tdiv(n1, d) <= tdiv(n2, d),
{
    if 0 <= n1 {
        lemma_div_is_ordered(n1, n2, d);
    } else if n2 < 0 {
        lemma_div_is_ordered(-n2, -n1, d);
    } else {
        lemma_div_pos_is_pos(-n1, d);
        lemma_div_pos_is_pos(n2, d);
    }
}

/// Fixed-point division by a positive divisor is monotone in the
/// numerator.
pub proof fn lemma_fp_div_monotone(a1: int, a2: int, b: int)
    requires
        a1 <= a2,
        0 < b,
    ensures
        fp_div_spec(a1, b) <= fp_div_spec(a2, b),
{
    lemma_mul_inequality(a1, a2, SCALE as int);
    lemma_tdiv_monotone(a1 * SCALE, a2 * SCALE, b);
}

/// The square root of a value in `[0, 1]` stays in `[0, 1]`.
pub proof fn lemma_fp_sqrt_le_one(a: int)
    requires
        0 <= a <= SCALE,
    ensures
        0 <= fp_sqrt_spec(a) <= SCALE,
{
    lemma_isqrt_exists(a * SCALE);
    assert(is_isqrt((SCALE as int) * (SCALE as int), SCALE as int));
    lemma_isqrt_unique((SCALE as int) * (SCALE as int), SCALE as int);
    lemma_isqrt_exists((SCALE as int) * (SCALE as int));
    lemma_isqrt_le(a * SCALE, (SCALE as int) * (SCALE as int));
}

/// Multiplying by one is exact: the fixed-point product of `SCALE`
/// with any representable value returns that value unchanged.
pub proof fn lemma_scale_identity(x: int)
    requires
        -FP_MAX <= x <= FP_MAX,
    ensures
        fp_mul_spec(SCALE as int, x) == x,
{
    let s = SCALE as int;
    if x >= 0 {
        lemma_div_multiples_vanish(x, s);
        assert(s * x == x * s) by (nonlinear_arith);
        assert(tdiv(s * x, s) == x);
    } else {
        assert(iabs(s * x) == s * (-x)) by (nonlinear_arith)
            requires
                x < 0,
                s > 0,
        ;
        lemma_div_multiples_vanish(-x, s);
        assert(tdiv(s * x, s) == x);
    }
}

/// Attenuation never amplifies: scaling a nonnegative value by a
/// factor in `[0, 1]` keeps it in `[0, value]`.
pub proof fn lemma_attenuation_bound(a: int, x: int)
    requires
        0 <= a <= SCALE,
        0 <= x <= FP_MAX,
    ensures
        0 <= fp_mul_spec(a, x) <= x,
{
    let s = SCALE as int;
    lemma_mul_inequality(a, s, x);
    assert(0 <= a * x) by (nonlinear_arith)
        requires
            0 <= a,
            0 <= x,
    ;
    lemma_div_is_ordered(a * x, s * x, s);
    lemma_div_multiples_vanish(x, s);
    assert(s * x == x * s) by (nonlinear_arith);
    lemma_div_pos_is_pos(a * x, s);
    assert(tdiv(a * x, s) == (a * x) / s);
    assert(fp_mul_spec(a, x) == sat((a * x) / s));
}

} // verus!
