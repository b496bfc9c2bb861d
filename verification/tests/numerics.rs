use horn_resonator_plus::fixed::{fx_add, fx_div, fx_mul, fx_sub};
use horn_resonator_plus::fxmath::{exp2_frac, log2_fx, pow10_fx, pow2_fx, pow_frac, tan_fx};
use horn_resonator_plus::waveguide::process_waveguide;

const ONE: i64 = 65536;

#[test]
fn arithmetic_truncates_toward_zero_and_saturates() {
    assert_eq!(fx_mul(3 * ONE, 2 * ONE), 6 * ONE);
    assert_eq!(fx_mul(ONE / 2, 3), 1);
    assert_eq!(fx_mul(-(ONE / 2), 3), -1);
    assert_eq!(fx_div(ONE, 3 * ONE), 21845);
    assert_eq!(fx_div(-ONE, 3 * ONE), -21845);
    assert_eq!(fx_add(i64::MAX, 1), i64::MAX);
    assert_eq!(fx_sub(i64::MIN, 1), i64::MIN);
    assert_eq!(fx_mul(i64::MAX, 2 * ONE), i64::MAX);
    assert_eq!(fx_mul(i64::MAX, -2 * ONE), i64::MIN);
}

#[test]
fn exponentials_hit_exact_anchors() {
    assert_eq!(pow2_fx(0), ONE);
    assert_eq!(pow10_fx(0), ONE);
    assert_eq!(exp2_frac(0), ONE);
    assert_eq!(log2_fx(ONE), 0);
    assert_eq!(pow_frac(ONE, 3 * ONE), ONE);
}

#[test]
fn exponentials_are_close_on_ordinary_values() {
    // 2^1 = 2 within a few raw units.
    let two = pow2_fx(ONE);
    assert!((two - 2 * ONE).abs() < 8, "2^1 = {two}");
    // 2^-1 = 0.5 within a few raw units.
    let half = pow2_fx(-ONE);
    assert!((half - ONE / 2).abs() < 8, "2^-1 = {half}");
    // 10^2 = 100 within a fraction of a percent.
    let hundred = pow10_fx(2 * ONE);
    assert!((hundred - 100 * ONE).abs() < ONE / 4, "10^2 = {hundred}");
    // log2 8 = 3 within a few raw units.
    let three = log2_fx(8 * ONE);
    assert!((three - 3 * ONE).abs() < 4, "log2 8 = {three}");
    // (1/4)^(1/2) = 1/2.
    let root = pow_frac(ONE / 4, ONE / 2);
    assert!((root - ONE / 2).abs() < 64, "sqrt(1/4) = {root}");
    // tan(pi/4) = 1.
    let t = tan_fx(51472);
    assert!((t - ONE).abs() < 256, "tan(pi/4) = {t}");
}

#[test]
fn loss_gains_stay_in_the_unit_interval() {
    for k in 1..40 {
        let g = pow10_fx(-k * ONE / 10);
        assert!(g >= 0 && g <= ONE);
    }
}

#[test]
fn waveguide_pass_scatters_by_the_reflection_coefficient() {
    let mut fwd: Vec<i64> = vec![ONE, 0];
    let mut rev: Vec<i64> = vec![0, 0];
    let r: Vec<i64> = vec![ONE / 2];
    process_waveguide(&mut fwd, &mut rev, &r, ONE);
    assert_eq!(fwd, vec![ONE, 98304]);
    assert_eq!(rev, vec![32768, 0]);
}

#[test]
fn waveguide_pass_applies_loss_gain() {
    let mut fwd: Vec<i64> = vec![ONE, 0, 0];
    let mut rev: Vec<i64> = vec![0, 0, 0];
    let r: Vec<i64> = vec![0, 0];
    process_waveguide(&mut fwd, &mut rev, &r, ONE / 2);
    // Every junction reads only pre-call values: the wave crosses one
    // junction per pass, attenuated by the loss gain, and does not
    // leap ahead within a single pass.
    assert_eq!(fwd, vec![ONE, 32768, 0]);
    assert_eq!(rev, vec![0, 0, 0]);
}

#[test]
fn waveguide_pass_reads_only_previous_values() {
    // A uniform lossless tube transports the waves by one step:
    // forward one to the right, backward one to the left.
    let mut fwd: Vec<i64> = vec![7, 11, 13];
    let mut rev: Vec<i64> = vec![17, 19, 23];
    let r: Vec<i64> = vec![0, 0];
    process_waveguide(&mut fwd, &mut rev, &r, ONE);
    assert_eq!(fwd, vec![7, 7, 11]);
    assert_eq!(rev, vec![19, 23, 23]);
}

#[test]
fn waveguide_pass_ignores_short_buffers() {
    let mut fwd: Vec<i64> = vec![ONE];
    let mut rev: Vec<i64> = vec![0];
    let r: Vec<i64> = vec![ONE / 2];
    process_waveguide(&mut fwd, &mut rev, &r, ONE);
    assert_eq!(fwd, vec![ONE]);
    assert_eq!(rev, vec![0]);
}
