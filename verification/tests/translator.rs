use horn_resonator_plus::context::Context;
use horn_resonator_plus::params::Parameters;

const ONE: i64 = 65536;

fn config() -> Parameters {
    Parameters {
        en: true,
        ln: 100 * ONE,
        th: 10 * ONE,
        mo: 50 * ONE,
        cv: 100 * ONE,
        dp: 0,
        tr: ONE,
        co: 500 * ONE,
        wg: 0,
        sample_rate: 48000 * ONE,
        channel_count: 1,
        block_size: 16,
    }
}

#[test]
fn segment_count_for_one_meter_at_48k() {
    let mut c = Context::new();
    c.recalc(&config());
    // round(48000 * 1.0 / 343) = round(139.94) = 140
    assert_eq!(c.profile.n, 140);
    assert_eq!(c.profile.z.len(), 141);
    assert_eq!(c.profile.r.len(), 140);
}

#[test]
fn reflections_strictly_inside_unit_interval() {
    let mut c = Context::new();
    c.recalc(&config());
    for &rj in c.profile.r.iter() {
        assert!(rj > -ONE && rj < ONE);
    }
    // A widening horn reflects somewhere: not all coefficients are zero.
    assert!(c.profile.r.iter().any(|&rj| rj != 0));
}

#[test]
fn uniform_tube_has_zero_reflections() {
    let mut c = Context::new();
    let mut p = config();
    p.th = 30 * ONE;
    p.mo = 30 * ONE;
    c.recalc(&p);
    for &rj in c.profile.r.iter() {
        assert_eq!(rj, 0);
    }
}

#[test]
fn zero_damping_gives_unit_loss_gain() {
    let mut c = Context::new();
    c.recalc(&config());
    assert_eq!(c.profile.g, ONE);
}

#[test]
fn positive_damping_gives_loss_gain_at_most_one() {
    let mut c = Context::new();
    let mut p = config();
    p.dp = 6 * ONE;
    c.recalc(&p);
    assert!(c.profile.g >= 0 && c.profile.g <= ONE);
}

#[test]
fn zero_db_gives_unit_output_gain() {
    let mut c = Context::new();
    c.recalc(&config());
    assert_eq!(c.profile.output_gain, ONE);
}

#[test]
fn recompute_is_idempotent() {
    let mut a = Context::new();
    let p = config();
    a.recalc(&p);
    assert!(!a.needs_recalc(&p));
    let n1 = a.profile.n;
    let z1 = a.profile.z.clone();
    let r1 = a.profile.r.clone();
    let coeffs1 = vec![
        a.profile.g,
        a.profile.rt_b0,
        a.profile.rt_a1,
        a.profile.rm_b0,
        a.profile.rm_a1,
        a.profile.rm_a2,
        a.profile.b0_lp,
        a.profile.b1_lp,
        a.profile.b2_lp,
        a.profile.b0_hp,
        a.profile.b1_hp,
        a.profile.b2_hp,
        a.profile.a1_c,
        a.profile.a2_c,
        a.profile.output_gain,
    ];
    a.recalc(&p);
    let coeffs2 = vec![
        a.profile.g,
        a.profile.rt_b0,
        a.profile.rt_a1,
        a.profile.rm_b0,
        a.profile.rm_a1,
        a.profile.rm_a2,
        a.profile.b0_lp,
        a.profile.b1_lp,
        a.profile.b2_lp,
        a.profile.b0_hp,
        a.profile.b1_hp,
        a.profile.b2_hp,
        a.profile.a1_c,
        a.profile.a2_c,
        a.profile.output_gain,
    ];
    assert_eq!(a.profile.n, n1);
    assert_eq!(a.profile.z, z1);
    assert_eq!(a.profile.r, r1);
    assert_eq!(coeffs1, coeffs2);
}

#[test]
fn second_block_with_same_configuration_keeps_state() {
    let mut c = Context::new();
    let p = config();
    let mut data = vec![0i64; 16];
    data[0] = ONE;
    c.process(&mut data, &p).unwrap();
    // Engine state has advanced past the reset values.
    let idx_after_first = c.channels[0].delay_idx;
    assert_eq!(idx_after_first, 16 % 140);
    let mut silent = vec![0i64; 16];
    c.process(&mut silent, &p).unwrap();
    // The second block did not reset the per-channel state.
    assert_eq!(c.channels[0].delay_idx, 32 % 140);
}

#[test]
fn degenerate_configuration_is_clamped_to_a_valid_profile() {
    let mut c = Context::new();
    let p = Parameters {
        en: true,
        ln: -5 * ONE,
        th: 0,
        mo: 0,
        cv: -100 * ONE,
        dp: -3 * ONE,
        tr: 2 * ONE,
        co: 0,
        wg: 10 * ONE,
        sample_rate: 0,
        channel_count: 1,
        block_size: 8,
    };
    let mut data: Vec<i64> = vec![ONE, 0, 0, 0, 0, 0, 0, 0];
    c.process(&mut data, &p).unwrap();
    assert_eq!(c.profile.n, 1);
    assert_eq!(c.profile.z.len(), 2);
    for &z in c.profile.z.iter() {
        assert!(z >= 1);
    }
    for &rj in c.profile.r.iter() {
        assert!(rj > -ONE && rj < ONE);
    }
}

#[test]
fn drift_beyond_tolerance_triggers_recompute() {
    let mut c = Context::new();
    let p = config();
    c.recalc(&p);
    let mut q = p;
    // 0.002 in Q16.16 exceeds the 0.001 shape tolerance.
    q.ln = p.ln + 132;
    assert!(c.needs_recalc(&q));
    let mut s = p;
    // 0.0005 stays within the 0.001 shape tolerance.
    s.ln = p.ln + 32;
    assert!(!c.needs_recalc(&s));
}
