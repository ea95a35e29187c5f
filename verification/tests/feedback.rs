use fdn_reverb::multi_channel_mixed_feedback::MultiChannelMixedFeedback;
use fdn_reverb::sample::{CHANNELS, FP_ONE};
use fdn_reverb::tuning::pow2_neg;

fn fp(x: f64) -> i64 {
    (x * (FP_ONE as f64)).round() as i64
}

fn unfp(v: i64) -> f64 {
    v as f64 / FP_ONE as f64
}

fn impulse() -> Vec<i64> {
    let mut f = vec![0i64; CHANNELS];
    f[0] = fp(1.0);
    f
}

#[test]
fn pow2_neg_exact_on_integer_and_half_exponents() {
    // 2^-1 and 2^-0 are exact; 2^-0.5 is the first table entry.
    assert_eq!(pow2_neg(FP_ONE), FP_ONE / 2);
    assert_eq!(pow2_neg(0), FP_ONE);
    assert_eq!(pow2_neg(FP_ONE / 2), 759250125);
    assert_eq!(pow2_neg(63 * FP_ONE), 0);
    let g = pow2_neg(2 * FP_ONE + FP_ONE / 2);
    assert!((unfp(g) - 0.1767766952966369).abs() < 1e-8);
}

#[test]
fn feedback_impulse_surfaces_after_the_base_delay() {
    // Base length at 50 ms / 48 kHz is 2400 samples; channel 0's line is
    // 2401 long, so the injected impulse is read back exactly there.
    let mut fb = MultiChannelMixedFeedback::new(fp(50.0), fp(0.85), 48000);
    let zero = vec![0i64; CHANNELS];
    let imp = impulse();
    for step in 0..2401 {
        let out = fb.process(if step == 0 {
            &imp
        } else {
            &zero
        });
        assert!(out.iter().all(|&x| x == 0), "silent until the shortest line wraps");
    }
    let out = fb.process(&zero);
    assert_eq!(out[0], fp(1.0));
    for c in 1..CHANNELS {
        assert_eq!(out[c], 0);
    }
}

#[test]
fn feedback_impulse_decays_to_silence() {
    // Silence in, decaying out: with gain 0.85, windowed output energy is
    // non-increasing from the first full window on and approaches zero.
    let mut fb = MultiChannelMixedFeedback::new(fp(50.0), fp(0.85), 48000);
    let zero = vec![0i64; CHANNELS];
    let imp = impulse();
    let window: usize = 4402;  // the longest internal delay
    let mut energies: Vec<f64> = Vec::new();
    let mut acc = 0.0f64;
    for step in 0..window * 30 {
        let out = fb.process(if step == 0 {
            &imp
        } else {
            &zero
        });
        acc += out.iter().map(|&x| unfp(x) * unfp(x)).sum::<f64>();
        if (step + 1) % window == 0 {
            energies.push(acc);
            acc = 0.0;
        }
    }
    for w in 1..energies.len() - 1 {
        assert!(
            energies[w + 1] <= energies[w] + 1e-12,
            "energy grew from window {} to {}",
            w,
            w + 1
        );
    }
    let peak = energies.iter().cloned().fold(0.0f64, f64::max);
    assert!(energies[energies.len() - 1] < 1e-4 * peak, "tail failed to decay");
}

#[test]
fn feedback_at_unit_gain_stays_bounded() {
    // The stability boundary: decay gain exactly one must not grow the
    // signal — the mix never adds energy, so a unit impulse keeps every
    // output sample within one.
    let mut fb = MultiChannelMixedFeedback::new(fp(50.0), FP_ONE, 48000);
    let zero = vec![0i64; CHANNELS];
    let imp = impulse();
    let mut max_abs: i64 = 0;
    for step in 0..30000 {
        let out = fb.process(if step == 0 {
            &imp
        } else {
            &zero
        });
        for &x in out.iter() {
            max_abs = max_abs.max(x.abs());
        }
    }
    assert!(max_abs <= FP_ONE, "boundary gain amplified the impulse");
    assert!(max_abs > 0, "the loop lost the impulse entirely");
}

#[test]
fn feedback_reports_its_decay_gain() {
    let fb = MultiChannelMixedFeedback::new(fp(50.0), fp(0.6), 48000);
    assert_eq!(fb.decay_gain(), fp(0.6));
}
