use fdn_reverb::delay::Delay;
use fdn_reverb::householder::householder_mix;
use fdn_reverb::sample::{fp_mul, sat_add, CHANNELS, FP_ONE, SAT_MAX};

fn fp(x: f64) -> i64 {
    (x * (FP_ONE as f64)).round() as i64
}

fn unfp(v: i64) -> f64 {
    v as f64 / FP_ONE as f64
}

#[test]
fn delay_reads_zero_before_filled() {
    let d = Delay::new(4);
    assert_eq!(d.read(), 0);
    assert_eq!(d.length(), 4);
}

#[test]
fn delay_causality_exact() {
    // The value written at step n comes back out at step n + L, for L = 5.
    let l: usize = 5;
    let mut d = Delay::new(l);
    let inputs: Vec<i64> = (0..40).map(|n| fp(0.01) * (n as i64 + 1)).collect();
    for (k, &x) in inputs.iter().enumerate() {
        let out = d.read();
        if k >= l {
            assert_eq!(out, inputs[k - l]);
        } else {
            assert_eq!(out, 0);
        }
        d.write(x);
    }
}

#[test]
fn delay_length_one_echoes_previous_write() {
    let mut d = Delay::new(1);
    assert_eq!(d.read(), 0);
    d.write(fp(0.5));
    assert_eq!(d.read(), fp(0.5));
    d.write(fp(-0.25));
    assert_eq!(d.read(), fp(-0.25));
}

#[test]
fn mix_spreads_an_impulse_evenly() {
    // Householder reflection of (1, 0, ..., 0): subtract sum/4 = 1/4 from
    // every channel.
    let mut frame = vec![0i64; CHANNELS];
    frame[0] = fp(1.0);
    householder_mix(&mut frame);
    assert_eq!(frame[0], fp(0.75));
    for c in 1..CHANNELS {
        assert_eq!(frame[c], fp(-0.25));
    }
}

#[test]
fn mix_preserves_energy_within_tolerance() {
    let vals = [0.9, -0.3, 0.25, 0.0, -0.75, 0.5, 0.125, -0.6];
    let mut frame: Vec<i64> = vals.iter().map(|&x| fp(x)).collect();
    let before: f64 = frame.iter().map(|&x| unfp(x) * unfp(x)).sum();
    householder_mix(&mut frame);
    let after: f64 = frame.iter().map(|&x| unfp(x) * unfp(x)).sum();
    assert!(after <= before + 1e-12);
    assert!((before - after).abs() <= 1e-9 * before.max(1.0));
}

#[test]
fn mix_applied_twice_is_identity_within_tolerance() {
    let vals = [0.4, -0.9, 0.33, 0.0, 0.111, -0.27, 0.65, -0.05];
    let original: Vec<i64> = vals.iter().map(|&x| fp(x)).collect();
    let mut frame = original.clone();
    householder_mix(&mut frame);
    householder_mix(&mut frame);
    for c in 0..CHANNELS {
        // At most one least-significant fixed-point unit of drift, which is
        // below 1e-9 in real terms.
        assert!((frame[c] - original[c]).abs() <= 1);
        assert!((unfp(frame[c]) - unfp(original[c])).abs() < 1e-9);
    }
}

#[test]
fn fixed_point_products_are_exact_on_dyadics() {
    assert_eq!(fp_mul(fp(0.5), fp(0.5)), fp(0.25));
    assert_eq!(fp_mul(fp(1.0), fp(-0.125)), fp(-0.125));
    assert_eq!(fp_mul(fp(2.0), fp(0.75)), fp(1.5));
    assert_eq!(fp_mul(0, fp(0.9)), 0);
}

#[test]
fn additions_saturate_at_the_symmetric_limit() {
    assert_eq!(sat_add(SAT_MAX, SAT_MAX), SAT_MAX);
    assert_eq!(sat_add(-SAT_MAX, -SAT_MAX), -SAT_MAX);
    assert_eq!(sat_add(fp(0.5), fp(0.25)), fp(0.75));
}
