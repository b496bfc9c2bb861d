//! Q16.16 saturating fixed-point arithmetic.
//!
//! A sample or physical quantity is an `i64` holding `value * 65536`.
//! Every operation truncates toward zero and saturates at the `i64`
//! range instead of overflowing, so the engine's hot path can never
//! panic and every result is pinned down exactly by the spec twins
//! below.

use vstd::prelude::*;

verus! {

/// Fixed-point sample: an `i64` carrying `value * 65536`.
pub type Fx = i64;

/// Number of raw units per 1.0.
pub const ONE: i64 = 65536;

/// Half of a unit, used for rounding.
pub const HALF: i64 = 32768;

/// Absolute value over the mathematical integers.
pub open spec fn iabs(x: int) -> int {
    if x < 0 {
        -x
    } else {
        x
    }
}

/// Saturation of a mathematical integer into the `i64` range.
pub open spec fn sat64(x: int) -> int {
    if x > i64::MAX as int {
        i64::MAX as int
    } else if x < i64::MIN as int {
        i64::MIN as int
    } else {
        x
    }
}

/// Division truncating toward zero, as Rust's `/` does.
pub open spec fn div_trunc(a: int, b: int) -> int
    recommends
        b != 0,
{
    let q = iabs(a) / iabs(b);
    if (a < 0) != (b < 0) {
        -q
    } else {
        q
    }
}

/// Exact value of saturating fixed-point addition.
pub open spec fn fx_add_spec(a: int, b: int) -> int {
    sat64(a + b)
}

/// Exact value of saturating fixed-point subtraction.
pub open spec fn fx_sub_spec(a: int, b: int) -> int {
    sat64(a - b)
}

/// Exact value of saturating fixed-point multiplication.
pub open spec fn fx_mul_spec(a: int, b: int) -> int {
    sat64(div_trunc(a * b, 65536))
}

/// Exact value of saturating fixed-point division.
pub open spec fn fx_div_spec(a: int, b: int) -> int
    recommends
        b != 0,
{
    sat64(div_trunc(a * 65536, b))
}

/// A product of values within the stated bounds stays in range and its
/// fixed-point product is bounded by the product of the bounds.
pub proof fn lemma_fx_mul_nonneg_bound(a: int, b: int, amax: int, bmax: int)
    requires
        0 <= a <= amax,
        0 <= b <= bmax,
        amax * bmax <= 0x7fff_ffff_ffff_ffff as int * 65536,
    ensures
        0 <= fx_mul_spec(a, b),
        fx_mul_spec(a, b) <= (amax * bmax) / 65536,
{
    vstd::arithmetic::mul::lemma_mul_nonnegative(a, b);
    vstd::arithmetic::mul::lemma_mul_upper_bound(a, amax, b, bmax);
    vstd::arithmetic::div_mod::lemma_div_pos_is_pos(a * b, 65536);
    vstd::arithmetic::div_mod::lemma_div_is_ordered(a * b, amax * bmax, 65536);
    vstd::arithmetic::div_mod::lemma_div_is_ordered(
        amax * bmax,
        0x7fff_ffff_ffff_ffff as int * 65536,
        65536,
    );
    vstd::arithmetic::div_mod::lemma_div_multiples_vanish(0x7fff_ffff_ffff_ffff, 65536);
}

/// A fixed-point product of values at least one keeps a lower bound:
/// `amin * bmin / 65536` (all nonnegative).
pub proof fn lemma_fx_mul_lower_bound(a: int, b: int, amin: int, bmin: int)
    requires
        0 <= amin <= a,
        0 <= bmin <= b,
        a * b <= 0x7fff_ffff_ffff_ffff as int * 65536,
    ensures
        fx_mul_spec(a, b) >= (amin * bmin) / 65536,
{
    vstd::arithmetic::mul::lemma_mul_nonnegative(a, b);
    vstd::arithmetic::mul::lemma_mul_upper_bound(amin, a, bmin, b);
    vstd::arithmetic::div_mod::lemma_div_is_ordered(amin * bmin, a * b, 65536);
    vstd::arithmetic::div_mod::lemma_div_is_ordered(a * b, 0x7fff_ffff_ffff_ffff as int * 65536, 65536);
    vstd::arithmetic::div_mod::lemma_div_multiples_vanish(0x7fff_ffff_ffff_ffff, 65536);
}

/// A fixed-point product of nonnegative values is nonnegative.
pub proof fn lemma_fx_mul_nonneg(a: int, b: int)
    requires
        0 <= a,
        0 <= b,
    ensures
        0 <= fx_mul_spec(a, b),
{
    vstd::arithmetic::mul::lemma_mul_nonnegative(a, b);
    vstd::arithmetic::div_mod::lemma_div_pos_is_pos(a * b, 65536);
}

/// Multiplying by fixed-point zero gives zero.
pub proof fn lemma_fx_mul_zero(b: int)
    ensures
        fx_mul_spec(0, b) == 0,
        fx_mul_spec(b, 0) == 0,
{
    vstd::arithmetic::mul::lemma_mul_by_zero_is_zero(b);
    vstd::arithmetic::div_mod::lemma_div_of0(65536);
}

/// Sign of a fixed-point product: nonpositive times nonnegative is
/// nonpositive.
pub proof fn lemma_fx_mul_nonpos(a: int, b: int)
    requires
        a <= 0,
        0 <= b,
    ensures
        fx_mul_spec(a, b) <= 0,
{
    vstd::arithmetic::mul::lemma_mul_nonnegative(-a, b);
    vstd::arithmetic::mul::lemma_mul_unary_negation(a, b);
    vstd::arithmetic::div_mod::lemma_div_pos_is_pos(-(a * b), 65536);
}

/// A fixed-point square is nonnegative.
pub proof fn lemma_fx_square_nonneg(a: int)
    ensures
        0 <= fx_mul_spec(a, a),
{
    if a < 0 {
        vstd::arithmetic::mul::lemma_mul_nonnegative(-a, -a);
        vstd::arithmetic::mul::lemma_mul_cancels_negatives(a, a);
        assert((-a) * (-a) == (-a) * (-a));
        vstd::arithmetic::mul::lemma_mul_unary_negation(a, -a);
        vstd::arithmetic::mul::lemma_mul_unary_negation(-a, a);
    } else {
        vstd::arithmetic::mul::lemma_mul_nonnegative(a, a);
    }
    vstd::arithmetic::div_mod::lemma_div_pos_is_pos(a * a, 65536);
}

/// Fixed-point zero divided by anything nonzero is zero.
pub proof fn lemma_fx_div_zero(b: int)
    requires
        b != 0,
    ensures
        fx_div_spec(0, b) == 0,
{
    vstd::arithmetic::mul::lemma_mul_by_zero_is_zero(65536);
    vstd::arithmetic::div_mod::lemma_div_of0(iabs(b));
}

/// A reflection coefficient computed from two positive impedances lies
/// strictly inside the open unit interval: the numerator's magnitude is
/// below the denominator, so the quotient's magnitude is below one.
pub proof fn lemma_reflection_bounds(sub: int, sum: int)
    requires
        1 <= sum,
        iabs(sub) <= sum - 1,
    ensures
        -65536 < fx_div_spec(sub, sum) < 65536,
{
    let q = iabs(sub * 65536) / sum;
    assert(iabs(sub * 65536) == iabs(sub) * 65536) by {
        vstd::arithmetic::mul::lemma_mul_unary_negation(sub, 65536);
        vstd::arithmetic::mul::lemma_mul_nonnegative(iabs(sub), 65536);
    }
    vstd::arithmetic::mul::lemma_mul_inequality(iabs(sub), sum - 1, 65536);
    vstd::arithmetic::div_mod::lemma_div_is_ordered(iabs(sub) * 65536, (sum - 1) * 65536, sum);
    assert((sum - 1) * 65536 < sum * 65536) by {
        vstd::arithmetic::mul::lemma_mul_strict_inequality(sum - 1, sum, 65536);
    }
    vstd::arithmetic::div_mod::lemma_multiply_divide_lt((sum - 1) * 65536, sum, 65536);
    vstd::arithmetic::div_mod::lemma_div_pos_is_pos(iabs(sub) * 65536, sum);
}

/// A fixed-point quotient of a nonnegative value by a positive one is
/// nonnegative.
pub proof fn lemma_fx_div_nonneg(a: int, b: int)
    requires
        0 <= a,
        0 < b,
    ensures
        0 <= fx_div_spec(a, b),
{
    vstd::arithmetic::div_mod::lemma_div_pos_is_pos(a * 65536, b);
}

/// Exact division of a small nonnegative value by a positive constant.
pub fn div_small(a: i64, d: u64) -> (r: i64)
    requires
        a >= 0,
        d > 0,
    ensures
        r as int == a as int / d as int,
        0 <= r <= a,
{
    proof {
        vstd::arithmetic::div_mod::lemma_div_pos_is_pos(a as int, d as int);
        vstd::arithmetic::div_mod::lemma_div_is_ordered_by_denominator(a as int, 1, d as int);
    }
    ((a as u64) / d) as i64
}

/// Saturating fixed-point addition.
pub fn fx_add(a: Fx, b: Fx) -> (r: Fx)
    ensures
        r as int == fx_add_spec(a as int, b as int),
{
    let s: i128 = a as i128 + b as i128;
    if s > i64::MAX as i128 {
        i64::MAX
    } else if s < i64::MIN as i128 {
        i64::MIN
    } else {
        s as i64
    }
}

/// Saturating fixed-point subtraction.
pub fn fx_sub(a: Fx, b: Fx) -> (r: Fx)
    ensures
        r as int == fx_sub_spec(a as int, b as int),
{
    let s: i128 = a as i128 - b as i128;
    if s > i64::MAX as i128 {
        i64::MAX
    } else if s < i64::MIN as i128 {
        i64::MIN
    } else {
        s as i64
    }
}

proof fn lemma_mul_fits_i128(a: int, b: int)
    requires
        i64::MIN as int <= a <= i64::MAX as int,
        i64::MIN as int <= b <= i64::MAX as int,
    ensures
        -0x4000_0000_0000_0000_0000_0000_0000_0001 <= a * b,
        a * b <= 0x4000_0000_0000_0000_0000_0000_0000_0000,
{
    let aa = iabs(a);
    let ab = iabs(b);
    vstd::arithmetic::mul::lemma_mul_upper_bound(
        aa,
        0x8000_0000_0000_0000,
        ab,
        0x8000_0000_0000_0000,
    );
    vstd::arithmetic::mul::lemma_mul_nonnegative(aa, ab);
    vstd::arithmetic::mul::lemma_mul_unary_negation(a, b);
    vstd::arithmetic::mul::lemma_mul_unary_negation(aa, b);
    assert(a * b == aa * ab || a * b == -(aa * ab)) by {
        vstd::arithmetic::mul::lemma_mul_unary_negation(aa, ab);
        vstd::arithmetic::mul::lemma_mul_cancels_negatives(a, b);
        vstd::arithmetic::mul::lemma_mul_cancels_negatives(aa, ab);
    }
}

/// Magnitude and sign split of a product, saturated back to `i64`.
fn sat_of_mag(q: u128, neg: bool) -> (r: i64)
    ensures
        neg ==> r as int == sat64(-(q as int)),
        !neg ==> r as int == sat64(q as int),
{
    if neg {
        if q > i64::MAX as u128 {
            i64::MIN
        } else {
            -(q as i64)
        }
    } else {
        if q > i64::MAX as u128 {
            i64::MAX
        } else {
            q as i64
        }
    }
}

/// Saturating fixed-point multiplication: `(a * b) / 65536`,
/// truncated toward zero.
pub fn fx_mul(a: Fx, b: Fx) -> (r: Fx)
    ensures
        r as int == fx_mul_spec(a as int, b as int),
{
    proof {
        lemma_mul_fits_i128(a as int, b as int);
    }
    let p: i128 = (a as i128) * (b as i128);
    let neg: bool = p < 0;
    let mag: u128 = if p < 0 {
        (-p) as u128
    } else {
        p as u128
    };
    assert(mag as int == iabs((a as int) * (b as int)));
    let q: u128 = mag / 65536u128;
    assert(q as int == iabs((a as int) * (b as int)) / 65536);
    sat_of_mag(q, neg)
}

/// Saturating fixed-point division: `(a * 65536) / b`, truncated
/// toward zero. The caller rules out a zero divisor.
pub fn fx_div(a: Fx, b: Fx) -> (r: Fx)
    requires
        b != 0,
    ensures
        r as int == fx_div_spec(a as int, b as int),
{
    let p: i128 = (a as i128) * 65536;
    let neg: bool = (p < 0) != (b < 0);
    let mag: u128 = if p < 0 {
        (-p) as u128
    } else {
        p as u128
    };
    let magb: u128 = if b < 0 {
        (-(b as i128)) as u128
    } else {
        b as u128
    };
    assert(mag as int == iabs((a as int) * 65536));
    assert(magb as int == iabs(b as int));
    let q: u128 = mag / magb;
    assert(q as int == iabs((a as int) * 65536) / iabs(b as int));
    sat_of_mag(q, neg)
}

} // verus!
