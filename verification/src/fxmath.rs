//! Fixed-point elementary functions for the parameter translator:
//! base-2 exponential, base-10 power, binary logarithm and tangent.
//!
//! All of them are polynomial or digit-by-digit approximations over the
//! Q16.16 representation. Each executable function returns exactly the
//! value of its spec twin, so every derived quantity of the translator
//! is a function of the configuration alone; the contracts also state
//! the sign and range facts the translator's guarantees rest on
//! (positivity of impedances, a loss gain of at most one for
//! nonnegative damping, exact unity at zero).

use vstd::prelude::*;
use crate::fixed::{
    Fx, ONE, fx_sub_spec, fx_mul_spec, fx_div_spec, fx_sub, fx_mul, fx_div, div_small,
    lemma_fx_mul_nonneg_bound, lemma_fx_mul_lower_bound, lemma_fx_mul_nonpos, lemma_fx_mul_nonneg,
    lemma_fx_mul_zero, lemma_fx_div_nonneg,
};

verus! {

/// ln 2 in Q16.16, rounded down.
pub const LN2_FX: i64 = 45426;

/// log2 10 in Q16.16.
pub const LOG2_10_FX: i64 = 217726;

/// pi in Q16.16.
pub const PI_FX: i64 = 205887;

/// 2 pi in Q16.16.
pub const TWO_PI_FX: i64 = 411775;

/// sqrt 2 in Q16.16.
pub const SQRT2_FX: i64 = 92682;

/// Exact value of [`exp2_frac`]: the seven-term series for
/// exp(f ln 2), evaluated innermost term first, clamped at two.
pub open spec fn exp2_frac_spec(f: int) -> int {
    let t = fx_mul_spec(f, LN2_FX as int);
    let a1 = 65536 + t / 7;
    let a2 = 65536 + fx_mul_spec(t, a1) / 6;
    let a3 = 65536 + fx_mul_spec(t, a2) / 5;
    let a4 = 65536 + fx_mul_spec(t, a3) / 4;
    let a5 = 65536 + fx_mul_spec(t, a4) / 3;
    let a6 = 65536 + fx_mul_spec(t, a5) / 2;
    let a7 = 65536 + fx_mul_spec(t, a6);
    if a7 > 131072 {
        131072
    } else {
        a7
    }
}

/// k saturating doublings of m.
pub open spec fn pow2_dbl(m: int, k: int) -> int
    decreases k,
{
    if k <= 0 {
        m
    } else {
        pow2_dbl(
            if m > 0x3fff_ffff_ffff_ffff {
                0x7fff_ffff_ffff_ffff
            } else {
                m * 2
            },
            k - 1,
        )
    }
}

/// k truncating halvings of m.
pub open spec fn pow2_hlv(m: int, k: int) -> int
    decreases k,
{
    if k <= 0 {
        m
    } else {
        pow2_hlv(m / 2, k - 1)
    }
}

/// Exact value of [`pow2_fx`]: split the exponent into integer and
/// fractional parts, take the series on the fraction and shift by the
/// integer part, saturating beyond 2^48 on either side.
pub open spec fn pow2_spec(x: int) -> int {
    if x >= 48 * 65536 {
        0x7fff_ffff_ffff_ffff
    } else if x <= -(48 * 65536) {
        0
    } else if x >= 0 {
        let k = x / 65536;
        let f = x - k * 65536;
        pow2_dbl(exp2_frac_spec(f), k)
    } else {
        let xm = -x;
        let kn = (xm + 65535) / 65536;
        let f = kn * 65536 - xm;
        pow2_hlv(exp2_frac_spec(f), kn)
    }
}

/// Exact value of [`pow10_fx`]: 2^(x log2 10).
pub open spec fn pow10_spec(x: int) -> int {
    pow2_spec(fx_mul_spec(x, LOG2_10_FX as int))
}

/// Normalization of [`log2_fx`]: double a small mantissa up toward one,
/// decrementing the characteristic, at most 17 times.
pub open spec fn lg_up(m: int, k: int, j: int) -> (int, int)
    decreases 17 - j,
{
    if j >= 17 || m >= 65536 {
        (m, k)
    } else {
        lg_up(m * 2, k - 1, j + 1)
    }
}

/// Normalization of [`log2_fx`]: halve a large mantissa down below two,
/// incrementing the characteristic, at most 64 times.
pub open spec fn lg_dn(m: int, k: int, j2: int) -> (int, int)
    decreases 64 - j2,
{
    if j2 >= 64 || m < 131072 {
        (m, k)
    } else {
        lg_dn(m / 2, k + 1, j2 + 1)
    }
}

/// Fraction bits of [`log2_fx`], digit by digit: square the mantissa;
/// where it reaches two, halve it and set the bit.
pub open spec fn lg_fr(m: int, fr: int, bit: int) -> int
    decreases bit,
{
    if bit <= 0 {
        fr
    } else {
        let m2 = fx_mul_spec(m, m);
        if m2 >= 131072 {
            lg_fr(m2 / 2, fr + bit, bit / 2)
        } else {
            lg_fr(m2, fr, bit / 2)
        }
    }
}

/// Exact value of [`log2_fx`]: normalize the mantissa into [1, 2),
/// then extract sixteen fraction bits by repeated squaring.
pub open spec fn log2_spec(x: int) -> int {
    let up = if x < 65536 {
        lg_up(x, 0, 0)
    } else {
        (x, 0int)
    };
    let m1 = if up.0 < 65536 {
        65536
    } else {
        up.0
    };
    let dn = lg_dn(m1, up.1, 0);
    let m2 = if dn.0 >= 131072 {
        131071
    } else {
        dn.0
    };
    dn.1 * 65536 + lg_fr(m2, 0, 32768)
}

/// Exact value of [`pow_frac`]: 2^(e log2 x).
pub open spec fn pow_frac_spec(x: int, e: int) -> int {
    pow2_spec(fx_mul_spec(log2_spec(x), e))
}

/// Exact value of [`tan_fx`]: the truncated sine and cosine series,
/// with the sine floored at zero and the cosine at one raw unit.
pub open spec fn tan_spec(x: int) -> int {
    let x2 = fx_mul_spec(x, x);
    let s3 = fx_sub_spec(65536, fx_div_spec(x2, (42 * 65536) as int));
    let s2 = fx_sub_spec(65536, fx_mul_spec(fx_div_spec(x2, (20 * 65536) as int), s3));
    let s1 = fx_sub_spec(65536, fx_mul_spec(fx_div_spec(x2, (6 * 65536) as int), s2));
    let sin_raw = fx_mul_spec(x, s1);
    let sin_v = if sin_raw < 0 {
        0
    } else {
        sin_raw
    };
    let c4 = fx_sub_spec(65536, fx_div_spec(x2, (56 * 65536) as int));
    let c3 = fx_sub_spec(65536, fx_mul_spec(fx_div_spec(x2, (30 * 65536) as int), c4));
    let c2 = fx_sub_spec(65536, fx_mul_spec(fx_div_spec(x2, (12 * 65536) as int), c3));
    let cos_raw = fx_sub_spec(65536, fx_mul_spec(fx_div_spec(x2, (2 * 65536) as int), c2));
    let cos_v = if cos_raw < 1 {
        1
    } else {
        cos_raw
    };
    fx_div_spec(sin_v, cos_v)
}

/// 2^f for a fractional exponent f in [0, 1], by a seven-term series
/// for exp(f ln 2). Exact at f = 0; always within [1, 2] in Q16.16.
pub fn exp2_frac(f: Fx) -> (r: Fx)
    requires
        0 <= f <= ONE,
    ensures
        r as int == exp2_frac_spec(f as int),
        ONE <= r <= 2 * ONE,
        f == 0 ==> r == ONE,
{
    proof {
        lemma_fx_mul_nonneg_bound(f as int, LN2_FX as int, 65536, 45426);
        if f == 0 {
            lemma_fx_mul_zero(LN2_FX as int);
        }
    }
    let t: i64 = fx_mul(f, LN2_FX);
    let mut acc: i64 = ONE + div_small(t, 7);
    proof {
        lemma_fx_mul_nonneg_bound(t as int, acc as int, 45426, 400000);
        if t == 0 {
            lemma_fx_mul_zero(acc as int);
        }
    }
    acc = ONE + div_small(fx_mul(t, acc), 6);
    proof {
        lemma_fx_mul_nonneg_bound(t as int, acc as int, 45426, 400000);
        if t == 0 {
            lemma_fx_mul_zero(acc as int);
        }
    }
    acc = ONE + div_small(fx_mul(t, acc), 5);
    proof {
        lemma_fx_mul_nonneg_bound(t as int, acc as int, 45426, 400000);
        if t == 0 {
            lemma_fx_mul_zero(acc as int);
        }
    }
    acc = ONE + div_small(fx_mul(t, acc), 4);
    proof {
        lemma_fx_mul_nonneg_bound(t as int, acc as int, 45426, 400000);
        if t == 0 {
            lemma_fx_mul_zero(acc as int);
        }
    }
    acc = ONE + div_small(fx_mul(t, acc), 3);
    proof {
        lemma_fx_mul_nonneg_bound(t as int, acc as int, 45426, 400000);
        if t == 0 {
            lemma_fx_mul_zero(acc as int);
        }
    }
    acc = ONE + div_small(fx_mul(t, acc), 2);
    proof {
        lemma_fx_mul_nonneg_bound(t as int, acc as int, 45426, 400000);
        if t == 0 {
            lemma_fx_mul_zero(acc as int);
        }
    }
    acc = ONE + fx_mul(t, acc);
    if acc > 2 * ONE {
        2 * ONE
    } else {
        acc
    }
}

/// 2^x over the whole fixed-point range, saturating: zero below
/// 2^-48, `i64::MAX` at and above 2^48.
pub fn pow2_fx(x: Fx) -> (r: Fx)
    ensures
        r as int == pow2_spec(x as int),
        0 <= r,
        x <= 0 ==> r <= ONE,
        x == 0 ==> r == ONE,
        x >= 0 ==> r >= ONE,
{
    if x >= 48 * ONE {
        return i64::MAX;
    }
    if x <= -(48 * ONE) {
        return 0;
    }
    if x >= 0 {
        let k: i64 = div_small(x, 65536);
        proof {
            vstd::arithmetic::div_mod::lemma_fundamental_div_mod(x as int, 65536);
            vstd::arithmetic::div_mod::lemma_div_is_ordered(x as int, (48 * 65536 - 1) as int, 65536);
        }
        let f: i64 = x - k * 65536;
        let mut m: i64 = exp2_frac(f);
        let ghost m0 = m as int;
        let mut i: i64 = 0;
        while i < k
            invariant
                ONE <= m,
                0 <= i <= k <= 47,
                k == 0 ==> m == m0,
                pow2_dbl(m as int, k - i) == pow2_dbl(m0, k as int),
            decreases k - i,
        {
            m = if m > 0x3fff_ffff_ffff_ffff {
                i64::MAX
            } else {
                m * 2
            };
            i = i + 1;
        }
        m
    } else {
        let xm: i64 = -x;
        let kn: i64 = div_small(xm + 65535, 65536);
        proof {
            vstd::arithmetic::div_mod::lemma_fundamental_div_mod(xm as int + 65535, 65536);
            vstd::arithmetic::div_mod::lemma_div_is_ordered(
                xm as int + 65535,
                (48 * 65536 + 65535) as int,
                65536,
            );
            vstd::arithmetic::div_mod::lemma_div_is_ordered(65536, xm as int + 65535, 65536);
        }
        let f: i64 = kn * 65536 - xm;
        let mut m: i64 = exp2_frac(f);
        let ghost mh = m as int;
        let mut i: i64 = 0;
        while i < kn
            invariant
                0 <= m <= 2 * ONE,
                0 <= i <= kn <= 48,
                1 <= kn,
                i >= 1 ==> m <= ONE,
                pow2_hlv(m as int, kn - i) == pow2_hlv(mh, kn as int),
            decreases kn - i,
        {
            m = div_small(m, 2);
            i = i + 1;
        }
        m
    }
}

/// 10^x, saturating at the fixed-point range; exactly one at zero.
pub fn pow10_fx(x: Fx) -> (r: Fx)
    ensures
        r as int == pow10_spec(x as int),
        0 <= r,
        x <= 0 ==> r <= ONE,
        x == 0 ==> r == ONE,
        x >= 0 ==> r >= ONE,
{
    proof {
        if x as int <= 0 {
            lemma_fx_mul_nonpos(x as int, LOG2_10_FX as int);
        }
        if x as int >= 0 {
            lemma_fx_mul_nonneg(x as int, LOG2_10_FX as int);
        }
    }
    let e: i64 = fx_mul(x, LOG2_10_FX);
    pow2_fx(e)
}

/// Binary logarithm by normalization and digit-by-digit squaring.
/// Nonnegative at and above one, nonpositive at and below one, exactly
/// zero at one.
pub fn log2_fx(x: Fx) -> (r: Fx)
    requires
        x >= 1,
    ensures
        r as int == log2_spec(x as int),
        x >= ONE ==> r >= 0,
        x <= ONE ==> r <= 0,
        x == ONE ==> r == 0,
{
    let ghost spec_up = if (x as int) < 65536 {
        lg_up(x as int, 0, 0)
    } else {
        (x as int, 0int)
    };
    let ghost spec_m1 = if spec_up.0 < 65536 {
        65536int
    } else {
        spec_up.0
    };
    let mut m: i64 = x;
    let mut k: i64 = 0;
    if m < ONE {
        let mut j: i64 = 0;
        while j < 17 && m < ONE
            invariant
                1 <= m <= 131070,
                0 <= j <= 17,
                k == -j,
                j == 0 ==> m < ONE,
                lg_up(m as int, k as int, j as int) == lg_up(x as int, 0, 0),
            decreases 17 - j,
        {
            m = m * 2;
            k = k - 1;
            j = j + 1;
        }
        if m < ONE {
            m = ONE;
        }
        assert(k <= -1);
    }
    proof {
        assert(m as int == spec_m1 && k as int == spec_up.1);
    }
    let ghost gm1 = m as int;
    let ghost gk1 = k as int;
    let mut j2: i64 = 0;
    while j2 < 64 && m >= 2 * ONE
        invariant
            ONE <= m,
            0 <= j2 <= 64,
            x < ONE ==> (k <= -1 && m < 2 * ONE),
            x == ONE ==> (k == 0 && m == ONE),
            x >= ONE ==> k >= 0,
            -17 <= k && k <= j2,
            lg_dn(m as int, k as int, j2 as int) == lg_dn(gm1, gk1, 0),
        decreases 64 - j2,
    {
        m = div_small(m, 2);
        k = k + 1;
        j2 = j2 + 1;
    }
    if m >= 2 * ONE {
        m = 2 * ONE - 1;
    }
    let ghost gm2 = m as int;
    let ghost gk2 = k as int;
    let mut bit: i64 = 32768;
    let mut fr: i64 = 0;
    while bit > 0
        invariant
            ONE <= m < 2 * ONE,
            0 <= bit <= 32768,
            0 <= fr,
            fr + 2 * bit <= 65536,
            fr <= 65535,
            x < ONE ==> k <= -1,
            x == ONE ==> (k == 0 && m == ONE && fr == 0),
            x >= ONE ==> k >= 0,
            -17 <= k <= 64,
            k as int == gk2,
            lg_fr(m as int, fr as int, bit as int) == lg_fr(gm2, 0, 32768),
        decreases bit,
    {
        proof {
            vstd::arithmetic::mul::lemma_mul_upper_bound(m as int, 131071, m as int, 131071);
            lemma_fx_mul_lower_bound(m as int, m as int, 65536, 65536);
            lemma_fx_mul_nonneg_bound(m as int, m as int, 131071, 131071);
            vstd::arithmetic::div_mod::lemma_div_multiples_vanish(65536, 65536);
        }
        m = fx_mul(m, m);
        if m >= 2 * ONE {
            m = div_small(m, 2);
            fr = fr + bit;
        }
        bit = div_small(bit, 2);
    }
    k * 65536 + fr
}

/// x^e for a base in (0, 1] and a nonnegative exponent, as
/// 2^(e * log2 x). The result stays in [0, 1]; a base of exactly one
/// gives exactly one.
pub fn pow_frac(x: Fx, e: Fx) -> (r: Fx)
    requires
        1 <= x <= ONE,
        0 <= e,
    ensures
        r as int == pow_frac_spec(x as int, e as int),
        0 <= r <= ONE,
        x == ONE ==> r == ONE,
{
    let lg: i64 = log2_fx(x);
    proof {
        lemma_fx_mul_nonpos(lg as int, e as int);
    }
    let p: i64 = fx_mul(lg, e);
    pow2_fx(p)
}

/// Tangent on [0, pi/2) by a truncated sine and cosine series; the
/// cosine is floored at one raw unit and the result at zero, so the
/// translator always receives a finite nonnegative slope.
pub fn tan_fx(x: Fx) -> (r: Fx)
    requires
        0 <= x <= 102944,
    ensures
        r as int == tan_spec(x as int),
        0 <= r,
{
    proof {
        lemma_fx_mul_nonneg_bound(x as int, x as int, 102944, 102944);
    }
    let x2: i64 = fx_mul(x, x);
    // sin x = x (1 - x^2/6 (1 - x^2/20 (1 - x^2/42)))
    let s3: i64 = fx_sub(ONE, fx_div(x2, 42 * ONE));
    let s2: i64 = fx_sub(ONE, fx_mul(fx_div(x2, 20 * ONE), s3));
    let s1: i64 = fx_sub(ONE, fx_mul(fx_div(x2, 6 * ONE), s2));
    let sin_raw: i64 = fx_mul(x, s1);
    let sin_v: i64 = if sin_raw < 0 {
        0
    } else {
        sin_raw
    };
    // cos x = 1 - x^2/2 (1 - x^2/12 (1 - x^2/30 (1 - x^2/56)))
    let c4: i64 = fx_sub(ONE, fx_div(x2, 56 * ONE));
    let c3: i64 = fx_sub(ONE, fx_mul(fx_div(x2, 30 * ONE), c4));
    let c2: i64 = fx_sub(ONE, fx_mul(fx_div(x2, 12 * ONE), c3));
    let cos_raw: i64 = fx_sub(ONE, fx_mul(fx_div(x2, 2 * ONE), c2));
    let cos_v: i64 = if cos_raw < 1 {
        1
    } else {
        cos_raw
    };
    proof {
        lemma_fx_div_nonneg(sin_v as int, cos_v as int);
    }
    fx_div(sin_v, cos_v)
}

} // verus!
