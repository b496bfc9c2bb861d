use horn_resonator_plus::horn::HornResonatorPlus;
use horn_resonator_plus::params::EngineError;

const ONE: i64 = 65536;

#[test]
fn trivial_tube_adds_the_delayed_low_band() {
    // One junction, zero reflection, unit loss, no mouth reflection,
    // unit gain: the output is the input plus the low-passed input one
    // sample ago (bypass pole one half: low = x/2 + low_prev/2).
    let mut h = HornResonatorPlus::new(48000 * ONE, 1, 1);
    let mut data: Vec<i64> = vec![100, 200, 300];
    h.process(&mut data).unwrap();
    assert_eq!(data, vec![100, 250, 425]);
}

#[test]
fn bypass_carries_the_filtered_input_not_the_raw_sample() {
    // Mute the transmitted path: the output is the delayed bypass
    // alone, and it is the low-passed sample, not the input itself.
    let mut h = HornResonatorPlus::new(48000 * ONE, 1, 1);
    h.set_output_gain(0);
    let mut data: Vec<i64> = vec![ONE, 0];
    h.process(&mut data).unwrap();
    assert_eq!(data[0], 0);
    assert_eq!(data[1], ONE / 2);
}

#[test]
fn zero_channels_is_a_vacuous_no_op() {
    let mut h = HornResonatorPlus::new(48000 * ONE, 0, 1);
    let mut data: Vec<i64> = vec![1, 2, 3];
    let before = data.clone();
    assert!(h.process(&mut data).is_ok());
    assert_eq!(data, before);
}

#[test]
fn damping_attenuates_the_waveguide_path() {
    let mut h = HornResonatorPlus::new(48000 * ONE, 1, 1);
    h.set_damping(ONE / 2);
    let mut data: Vec<i64> = vec![65536, 0, 0];
    h.process(&mut data).unwrap();
    // Transmitted wave is halved by the loss gain; the low-passed
    // input arrives through the delay line one sample later and keeps
    // decaying through the bypass filter.
    assert_eq!(data[0], 32768);
    assert_eq!(data[1], 32768);
    assert_eq!(data[2], 16384);
}

#[test]
fn output_gain_scales_only_the_transmitted_path() {
    let mut h = HornResonatorPlus::new(48000 * ONE, 1, 1);
    h.set_output_gain(2 * ONE);
    let mut data: Vec<i64> = vec![100, 0];
    h.process(&mut data).unwrap();
    assert_eq!(data, vec![200, 50]);
}

#[test]
fn mouth_filter_reflects_into_the_line() {
    let mut h = HornResonatorPlus::new(48000 * ONE, 1, 1);
    // Full negative reflection at the mouth: transmitted = fw + (-fw) = 0.
    h.set_mouth_filter(-ONE, 0, 0);
    let mut data: Vec<i64> = vec![100, 0];
    h.process(&mut data).unwrap();
    assert_eq!(data[0], 0);
    assert_eq!(data[1], 50);
}

#[test]
fn out_of_range_reflection_index_is_ignored() {
    let mut h = HornResonatorPlus::new(48000 * ONE, 1, 4);
    h.set_reflection(2, 1000);
    assert_eq!(h.r, vec![0, 0, 1000, 0]);
    h.set_reflection(4, 5000);
    h.set_reflection(100, 5000);
    assert_eq!(h.r, vec![0, 0, 1000, 0]);
}

#[test]
fn horn_rejects_uneven_buffer() {
    let mut h = HornResonatorPlus::new(48000 * ONE, 2, 3);
    let mut data: Vec<i64> = vec![1, 2, 3, 4, 5];
    let before = data.clone();
    assert_eq!(h.process(&mut data), Err(EngineError::UnevenBuffer));
    assert_eq!(data, before);
}

#[test]
fn reflection_coefficient_splits_energy() {
    // One junction with r = 0.5: an impulse of 1.0 injected at the
    // throat transmits 1.5x forward (one-multiply junction form).
    let mut h = HornResonatorPlus::new(48000 * ONE, 1, 1);
    h.set_reflection(0, ONE / 2);
    let mut data: Vec<i64> = vec![65536, 0];
    h.process(&mut data).unwrap();
    assert_eq!(data[0], 98304);
    // The reflected half wave re-enters at the throat and rides the
    // line together with the delayed low-passed input.
    assert_eq!(data[1], 49152 + 32768);
}
