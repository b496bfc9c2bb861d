use horn_resonator_plus::context::{split_band, Context};
use horn_resonator_plus::params::Parameters;

const ONE: i64 = 65536;

fn config() -> Parameters {
    Parameters {
        en: true,
        ln: 50 * ONE,
        th: 10 * ONE,
        mo: 50 * ONE,
        cv: 100 * ONE,
        dp: 0,
        tr: ONE,
        co: 500 * ONE,
        wg: 0,
        sample_rate: 48000 * ONE,
        channel_count: 1,
        block_size: 16,
    }
}

#[test]
fn bands_reconstruct_an_impulse_within_tolerance() {
    let mut c = Context::new();
    c.recalc(&config());
    let p = &c.profile;
    let mut lp: Vec<i64> = vec![0; 8];
    let mut hp: Vec<i64> = vec![0; 8];
    let amplitude: i64 = 1 << 26;
    let mut sum: i64 = 0;
    for i in 0..6000 {
        let x = if i == 0 { amplitude } else { 0 };
        let low = split_band(&mut lp, p.b0_lp, p.b1_lp, p.b2_lp, p.a1_c, p.a2_c, x);
        let high = split_band(&mut hp, p.b0_hp, p.b1_hp, p.b2_hp, p.a1_c, p.a2_c, x);
        sum += low + high;
    }
    // The two bands sum to an allpass: the total response of an impulse
    // keeps the impulse's own sum (unit gain at zero frequency).
    let err = (sum - amplitude).abs();
    assert!(
        err * 20 < amplitude,
        "allpass reconstruction off by {err} of {amplitude}"
    );
}

#[test]
fn constant_input_is_passed_to_the_low_band() {
    let mut c = Context::new();
    c.recalc(&config());
    let p = &c.profile;
    let mut lp: Vec<i64> = vec![0; 8];
    let mut hp: Vec<i64> = vec![0; 8];
    let amplitude: i64 = 1 << 26;
    let mut low: i64 = 0;
    let mut high: i64 = 0;
    for _ in 0..20000 {
        low = split_band(&mut lp, p.b0_lp, p.b1_lp, p.b2_lp, p.a1_c, p.a2_c, amplitude);
        high = split_band(&mut hp, p.b0_hp, p.b1_hp, p.b2_hp, p.a1_c, p.a2_c, amplitude);
    }
    // A signal far below the crossover settles in the low band, and the
    // bands together reproduce it.
    assert!((low - amplitude).abs() * 20 < amplitude, "low settled at {low}");
    assert!(high.abs() * 20 < amplitude, "high settled at {high}");
    assert!(((low + high) - amplitude).abs() * 20 < amplitude);
}
