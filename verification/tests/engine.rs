use horn_resonator_plus::context::Context;
use horn_resonator_plus::params::{EngineError, Parameters};

const ONE: i64 = 65536;

fn config(block_size: usize) -> Parameters {
    Parameters {
        en: true,
        ln: 50 * ONE,
        th: 10 * ONE,
        mo: 50 * ONE,
        cv: 100 * ONE,
        dp: 0,
        tr: ONE,
        co: 500 * ONE,
        wg: 0,
        sample_rate: 48000 * ONE,
        channel_count: 1,
        block_size,
    }
}

#[test]
fn disabled_instance_changes_nothing() {
    let mut c = Context::new();
    let mut p = config(8);
    p.en = false;
    let mut data: Vec<i64> = vec![ONE, 2 * ONE, -ONE, 0, 7, -7, 3, 12];
    let before = data.clone();
    let res = c.process(&mut data, &p);
    assert!(res.is_ok());
    assert_eq!(data, before);
    // No profile was computed and no state allocated.
    assert!(!c.initialized);
    assert_eq!(c.channels.len(), 0);
}

#[test]
fn uneven_buffer_is_rejected_without_change() {
    let mut c = Context::new();
    let mut p = config(8);
    p.channel_count = 2;
    let mut data: Vec<i64> = vec![ONE; 15];
    let before = data.clone();
    let res = c.process(&mut data, &p);
    assert_eq!(res, Err(EngineError::UnevenBuffer));
    assert_eq!(data, before);
    assert!(!c.initialized);
}

#[test]
fn bypass_contribution_is_delayed_exactly_n_samples() {
    // Mute the waveguide path with a huge negative output gain: the
    // output is then the delayed low band alone, and an impulse first
    // reaches the output exactly n samples in.
    let mut c = Context::new();
    let mut p = config(1024);
    p.ln = 100 * ONE;
    p.wg = -192 * ONE;
    let mut data = vec![0i64; 1024];
    data[0] = 1 << 26;
    c.process(&mut data, &p).unwrap();
    assert_eq!(c.profile.n, 140);
    assert_eq!(c.profile.output_gain, 0);
    let first = data.iter().position(|&v| v != 0).expect("bypass output is nonzero");
    assert_eq!(first, 140);
}

#[test]
fn waveguide_arrival_aligns_with_bypass_delay() {
    // The waveguide contribution (output with the bypass subtracted)
    // also first appears n samples in: both paths stay aligned.
    let mut full = Context::new();
    let mut muted = Context::new();
    let p = config(1024);
    let pm = {
        let mut q = p;
        q.wg = -192 * ONE;
        q
    };
    let mut a = vec![0i64; 1024];
    a[0] = 1 << 26;
    let mut b = a.clone();
    full.process(&mut a, &p).unwrap();
    muted.process(&mut b, &pm).unwrap();
    assert_eq!(full.profile.n, 70);
    let wave: Vec<i64> = a.iter().zip(b.iter()).map(|(x, y)| x - y).collect();
    let first = wave.iter().position(|&v| v != 0).expect("waveguide output is nonzero");
    assert_eq!(first, 70);
}

#[test]
fn impulse_response_is_causal_with_reflections() {
    let mut c = Context::new();
    let p = config(1024);
    let mut data = vec![0i64; 1024];
    data[0] = ONE;
    c.process(&mut data, &p).unwrap();
    let n = c.profile.n;
    assert_eq!(n, 70);
    // Causal: nothing before the aligned arrival of both paths.
    for i in 0..n {
        assert_eq!(data[i], 0);
    }
    // A nonzero response exists from the arrival on.
    let first = data.iter().position(|&v| v != 0).expect("response is nonzero");
    assert_eq!(first, n);
    // A reflected contribution is present one full round trip (2n)
    // after the first arrival.
    let window = &data[3 * n - 40..3 * n + 40];
    assert!(window.iter().any(|&v| v != 0));
}

#[test]
fn silence_after_transient_decays() {
    let mut c = Context::new();
    let mut p = config(512);
    p.dp = 6 * ONE;
    let mut data = vec![0i64; 512];
    data[0] = 1 << 26;
    c.process(&mut data, &p).unwrap();
    let energy = |c: &Context| -> i128 {
        let lane = &c.channels[0];
        lane.fwd_a
            .iter()
            .chain(lane.fwd_b.iter())
            .chain(lane.rev_a.iter())
            .chain(lane.rev_b.iter())
            .map(|&v| (v as i128).abs())
            .sum()
    };
    let after_transient = energy(&c);
    assert!(after_transient > 0);
    for _ in 0..200 {
        let mut silent = vec![0i64; 512];
        c.process(&mut silent, &p).unwrap();
    }
    let settled = energy(&c);
    assert!(settled <= after_transient);
    assert!(settled * 100 < after_transient + 100);
}

#[test]
fn channels_are_independent() {
    let mut c = Context::new();
    let mut p = config(256);
    p.channel_count = 2;
    let mut data = vec![0i64; 512];
    data[0] = ONE;
    data[256] = ONE;
    c.process(&mut data, &p).unwrap();
    for i in 0..256 {
        assert_eq!(data[i], data[256 + i]);
    }
}
