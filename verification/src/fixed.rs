//! Fixed-point scalars: an `i64` carries a real value scaled by `SCALE`.
//!
//! Addition and subtraction are exact up to saturation at the `i64` range;
//! multiplication, division and square root round toward negative infinity.
//! Each operation's contract states its result exactly over `int`.

use vstd::prelude::*;

verus! {

/// The fixed-point scale: one whole unit. A value `v: i64` stands for the
/// real number `v / SCALE`.
pub const SCALE: i64 = 65536;

/// Clamp a mathematical integer into the `i64` range.
pub open spec fn sat64(x: int) -> int {
    if x > i64::MAX {
        i64::MAX as int
    } else if x < i64::MIN {
        i64::MIN as int
    } else {
        x
    }
}

/// Saturating fixed-point sum: exact unless it leaves the `i64` range.
pub open spec fn fp_add(a: int, b: int) -> int {
    sat64(a + b)
}

/// Saturating fixed-point difference.
pub open spec fn fp_sub(a: int, b: int) -> int {
    sat64(a - b)
}

/// Fixed-point product: the exact product rescaled by `SCALE`, rounded
/// toward negative infinity, then saturated.
pub open spec fn fp_mul(a: int, b: int) -> int {
    sat64((a * b) / (SCALE as int))
}

/// Fixed-point quotient for a positive divisor: `a / b` in fixed point,
/// rounded toward negative infinity, then saturated.
pub open spec fn fp_div(a: int, b: int) -> int {
    sat64((a * (SCALE as int)) / b)
}

/// The Euclidean quotient of `p` by a positive `b` lies between `p` and 0.
proof fn lemma_div_bounds(p: int, b: int)
    requires
        b > 0,
    ensures
        p >= 0 ==> 0 <= p / b <= p,
        p < 0 ==> p <= p / b <= 0,
{
    if p >= 0 {
        vstd::arithmetic::div_mod::lemma_div_pos_is_pos(p, b);
        vstd::arithmetic::div_mod::lemma_div_nonincreasing(p, b);
    } else {
        vstd::arithmetic::div_mod::lemma_div_of0(b);
        vstd::arithmetic::div_mod::lemma_div_is_ordered(p, 0, b);
        assert(b * p <= p) by (nonlinear_arith)
            requires
                p < 0 && b >= 1,
        ;
        vstd::arithmetic::div_mod::lemma_div_multiples_vanish(p, b);
        vstd::arithmetic::div_mod::lemma_div_is_ordered(b * p, p, b);
    }
}

fn clamp_i128_to_i64(q: i128) -> (r: i64)
    ensures
        r == sat64(q as int),
{
    if q > i64::MAX as i128 {
        i64::MAX
    } else if q < i64::MIN as i128 {
        i64::MIN
    } else {
        q as i64
    }
}

/// Saturating fixed-point addition.
pub fn add_fp(a: i64, b: i64) -> (r: i64)
    ensures
        r == fp_add(a as int, b as int),
{
    clamp_i128_to_i64(a as i128 + b as i128)
}

/// Saturating fixed-point subtraction.
pub fn sub_fp(a: i64, b: i64) -> (r: i64)
    ensures
        r == fp_sub(a as int, b as int),
{
    clamp_i128_to_i64(a as i128 - b as i128)
}

/// Fixed-point multiplication with floor rounding.
pub fn mul_fp(a: i64, b: i64) -> (r: i64)
    ensures
        r == fp_mul(a as int, b as int),
{
    proof {
        assert((a as int) * (b as int) <= i128::MAX && (a as int) * (b as int) >= i128::MIN)
            by (nonlinear_arith)
            requires
                i64::MIN <= a <= i64::MAX && i64::MIN <= b <= i64::MAX,
        ;
    }
    let p: i128 = (a as i128) * (b as i128);
    proof {
        lemma_div_bounds(p as int, SCALE as int);
    }
    let q: i128 = match p.checked_div_euclid(SCALE as i128) {
        Some(q) => q,
        None => 0,
    };
    clamp_i128_to_i64(q)
}

/// Fixed-point division by a positive divisor with floor rounding.
pub fn div_fp(a: i64, b: i64) -> (r: i64)
    requires
        b > 0,
    ensures
        r == fp_div(a as int, b as int),
{
    let p: i128 = (a as i128) * (SCALE as i128);
    proof {
        lemma_div_bounds(p as int, b as int);
    }
    let q: i128 = match p.checked_div_euclid(b as i128) {
        Some(q) => q,
        None => 0,
    };
    clamp_i128_to_i64(q)
}

/// Euclidean division of a wide intermediate by a positive divisor; the
/// exec result is exactly the spec-level quotient.
pub fn div_euclid_i128(num: i128, den: i128) -> (q: i128)
    requires
        den > 0,
    ensures
        q == num as int / den as int,
{
    proof {
        lemma_div_bounds(num as int, den as int);
    }
    match num.checked_div_euclid(den) {
        Some(q) => q,
        None => 0,
    }
}

/// `r` is the square root of `v`, rounded toward zero.
pub open spec fn is_sqrt(v: int, r: int) -> bool {
    &&& r >= 0
    &&& r * r <= v
    &&& (r + 1) * (r + 1) > v
}

/// The square root of `v`, rounded toward zero, as a spec-level value.
pub open spec fn sqrt_floor(v: int) -> int {
    choose|r: int| is_sqrt(v, r)
}

/// At most one integer is the rounded square root of `v`, so any witness
/// equals `sqrt_floor(v)`.
pub proof fn lemma_sqrt_unique(v: int, r: int)
    requires
        is_sqrt(v, r),
    ensures
        r == sqrt_floor(v),
{
    let r2 = sqrt_floor(v);
    assert(is_sqrt(v, r2));
    assert(r == r2) by (nonlinear_arith)
        requires
            is_sqrt(v, r) && is_sqrt(v, r2),
    ;
}

/// The rounded square root of a perfect square is its root.
pub proof fn lemma_sqrt_perfect_square(x: int)
    requires
        x >= 0,
    ensures
        sqrt_floor(x * x) == x,
{
    assert(is_sqrt(x * x, x)) by (nonlinear_arith)
        requires
            x >= 0,
    ;
    lemma_sqrt_unique(x * x, x);
}

/// Every non-negative integer has a rounded square root, so `sqrt_floor`
/// denotes it.
pub proof fn lemma_sqrt_exists(v: int)
    requires
        v >= 0,
    ensures
        is_sqrt(v, sqrt_floor(v)),
    decreases v,
{
    if v == 0 {
        assert(is_sqrt(0, 0));
    } else {
        lemma_sqrt_exists(v - 1);
        let r = sqrt_floor(v - 1);
        assert(is_sqrt(v - 1, r));
        if (r + 1) * (r + 1) <= v {
            assert(is_sqrt(v, r + 1)) by (nonlinear_arith)
                requires
                    is_sqrt(v - 1, r) && (r + 1) * (r + 1) <= v,
            ;
            lemma_sqrt_unique(v, r + 1);
        } else {
            assert(is_sqrt(v, r));
            lemma_sqrt_unique(v, r);
        }
    }
    assert(is_sqrt(v, sqrt_floor(v)));
}

/// The square root of `v`, rounded toward zero, by bisection.
pub fn isqrt(v: u128) -> (r: u64)
    ensures
        is_sqrt(v as int, r as int),
        r == sqrt_floor(v as int),
{
    let mut lo: u128 = 0;
    let mut hi: u128 = 0x10000000000000000;
    proof {
        assert(0x10000000000000000int * 0x10000000000000000int > u128::MAX)
            by (nonlinear_arith);
    }
    while hi - lo > 1
        invariant
            0 <= lo < hi <= 0x10000000000000000u128,
            (lo as int) * (lo as int) <= v as int,
            (hi as int) * (hi as int) > v as int,
        decreases hi - lo,
    {
        let mid: u128 = lo + (hi - lo) / 2;
        proof {
            assert((mid as int) * (mid as int) <= u128::MAX) by (nonlinear_arith)
                requires
                    0 <= mid < 0x10000000000000000int,
            ;
        }
        if mid * mid <= v {
            lo = mid;
        } else {
            hi = mid;
        }
    }
    proof {
        lemma_sqrt_unique(v as int, lo as int);
    }
    lo as u64
}

/// Square root of a non-negative fixed-point value, rounded toward zero:
/// the result `r` satisfies `r * r <= a * SCALE < (r + 1) * (r + 1)`, which
/// makes `r / SCALE` the rounded root of the real value `a / SCALE`.
pub fn sqrt_fp(a: i64) -> (r: i64)
    requires
        a >= 0,
    ensures
        is_sqrt((a as int) * (SCALE as int), r as int),
        r == fp_sqrt(a as int),
        0 <= r <= 0x10000000000,
{
    proof {
        assert(0 <= (a as int) * (SCALE as int) <= 0x80000000000000000000int)
            by (nonlinear_arith)
            requires
                0 <= a <= i64::MAX && SCALE == 65536,
        ;
    }
    let wide: u128 = (a as u128) * (SCALE as u128);
    let root: u64 = isqrt(wide);
    proof {
        assert(root as int <= 0x10000000000int) by (nonlinear_arith)
            requires
                (root as int) * (root as int) <= wide as int && wide as int
                    <= 0x80000000000000000000int && root >= 0,
        ;
    }
    root as i64
}

/// The fixed-point square root as a spec-level value: `sqrt_fp` returns
/// exactly this.
pub open spec fn fp_sqrt(a: int) -> int {
    sqrt_floor(a * (SCALE as int))
}

/// A fixed-point square is never negative.
pub proof fn lemma_fp_square_nonneg(a: int)
    ensures
        fp_mul(a, a) >= 0,
{
    assert(a * a >= 0) by (nonlinear_arith);
    lemma_div_bounds(a * a, SCALE as int);
}

/// Dividing a non-negative value by a positive one stays non-negative.
pub proof fn lemma_fp_div_nonneg(a: int, b: int)
    requires
        a >= 0,
        b > 0,
    ensures
        fp_div(a, b) >= 0,
{
    lemma_div_bounds(a * (SCALE as int), b);
}

/// The square of a value in `[-1, 1]` lands in `[0, 1]`.
pub proof fn lemma_fp_square_bounded(a: int)
    requires
        -(SCALE as int) <= a <= SCALE as int,
    ensures
        0 <= fp_mul(a, a) <= SCALE,
{
    lemma_fp_square_nonneg(a);
    assert(a * a <= 65536 * 65536) by (nonlinear_arith)
        requires
            -65536 <= a <= 65536,
    ;
    vstd::arithmetic::div_mod::lemma_div_is_ordered(a * a, 65536int * 65536int, 65536int);
}

/// The product of two non-negative fixed-point values is non-negative.
pub proof fn lemma_fp_mul_nonneg(a: int, b: int)
    requires
        a >= 0,
        b >= 0,
    ensures
        fp_mul(a, b) >= 0,
{
    assert(a * b >= 0) by (nonlinear_arith)
        requires
            a >= 0 && b >= 0,
    ;
    lemma_div_bounds(a * b, SCALE as int);
}

/// The product of two fixed-point values in `[0, 1]` lies in `[0, 1]` and
/// below either factor.
pub proof fn lemma_fp_mul_unit(a: int, b: int)
    requires
        0 <= a <= SCALE,
        0 <= b <= SCALE,
    ensures
        0 <= fp_mul(a, b) <= a,
        fp_mul(a, b) <= b,
{
    let s = SCALE as int;
    assert(0 <= a * b && a * b <= s * a && a * b <= s * b) by (nonlinear_arith)
        requires
            0 <= a <= s && 0 <= b <= s,
    ;
    lemma_div_bounds(a * b, s);
    vstd::arithmetic::div_mod::lemma_multiply_divide_le(a * b, s, a);
    vstd::arithmetic::div_mod::lemma_multiply_divide_le(a * b, s, b);
}

/// Scaling a non-negative value by a fixed-point factor below one keeps it
/// in `[0, value]`, strictly below a positive value.
pub proof fn lemma_fp_mul_range(a: int, u: int)
    requires
        0 <= a <= i64::MAX,
        0 <= u < SCALE,
    ensures
        0 <= fp_mul(a, u) <= a,
        a > 0 ==> fp_mul(a, u) < a,
{
    let s = SCALE as int;
    assert(0 <= a * u <= s * a) by (nonlinear_arith)
        requires
            0 <= a && 0 <= u < s,
    ;
    lemma_div_bounds(a * u, s);
    vstd::arithmetic::div_mod::lemma_multiply_divide_le(a * u, s, a);
    if a > 0 {
        assert(a * u < s * a) by (nonlinear_arith)
            requires
                0 < a && 0 <= u < s,
        ;
        vstd::arithmetic::div_mod::lemma_multiply_divide_lt(a * u, s, a);
    }
}

/// Clamp `val` into `[min, max]`, taking the upper bound first, exactly as
/// a chained minimum and maximum would.
pub open spec fn fp_clamp(val: int, min: int, max: int) -> int {
    let capped = if val < max {
        val
    } else {
        max
    };
    if capped > min {
        capped
    } else {
        min
    }
}

/// Clamp a fixed-point value into `[min, max]`.
pub fn clamp(val: i64, min: i64, max: i64) -> (r: i64)
    ensures
        r == fp_clamp(val as int, min as int, max as int),
{
    let capped = if val < max {
        val
    } else {
        max
    };
    if capped > min {
        capped
    } else {
        min
    }
}

} // verus!
