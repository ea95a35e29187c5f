use fdn_reverb::basic_reverb::{BasicReverb, ConfigError};
use fdn_reverb::diffuser::Diffuser;
use fdn_reverb::sample::{CHANNELS, FP_ONE};

fn fp(x: f64) -> i64 {
    (x * (FP_ONE as f64)).round() as i64
}

fn unfp(v: i64) -> f64 {
    v as f64 / FP_ONE as f64
}

fn impulse() -> Vec<i64> {
    let mut f = vec![0i64; CHANNELS];
    f[0] = fp(1.0);
    f
}

#[test]
fn rejects_room_size_out_of_range() {
    assert_eq!(
        BasicReverb::new(0, fp(1.0), fp(1.0), fp(1.0), 48000).err(),
        Some(ConfigError::RoomSizeOutOfRange)
    );
    assert_eq!(
        BasicReverb::new(fp(-3.0), fp(1.0), fp(1.0), fp(1.0), 48000).err(),
        Some(ConfigError::RoomSizeOutOfRange)
    );
    assert_eq!(
        BasicReverb::new(fp(61_000.0), fp(1.0), fp(1.0), fp(1.0), 48000).err(),
        Some(ConfigError::RoomSizeOutOfRange)
    );
}

#[test]
fn rejects_rt60_out_of_range() {
    assert_eq!(
        BasicReverb::new(fp(50.0), 0, fp(1.0), fp(1.0), 48000).err(),
        Some(ConfigError::Rt60OutOfRange)
    );
    assert_eq!(
        BasicReverb::new(fp(50.0), fp(-1.0), fp(1.0), fp(1.0), 48000).err(),
        Some(ConfigError::Rt60OutOfRange)
    );
    assert_eq!(
        BasicReverb::new(fp(50.0), fp(3601.0), fp(1.0), fp(1.0), 48000).err(),
        Some(ConfigError::Rt60OutOfRange)
    );
}

#[test]
fn rejects_sample_rate_out_of_range() {
    assert_eq!(
        BasicReverb::new(fp(50.0), fp(1.0), fp(1.0), fp(1.0), 0).err(),
        Some(ConfigError::SampleRateOutOfRange)
    );
    assert_eq!(
        BasicReverb::new(fp(50.0), fp(1.0), fp(1.0), fp(1.0), 2_000_000).err(),
        Some(ConfigError::SampleRateOutOfRange)
    );
}

#[test]
fn rejects_undamped_decay_as_unstable() {
    // A room of one fixed-point quantum with an hour of RT60: the per-loop
    // attenuation rounds to nothing, so the loop would never decay.
    assert_eq!(
        BasicReverb::new(1, fp(3600.0), fp(1.0), fp(1.0), 48000).err(),
        Some(ConfigError::UnstableDecay)
    );
}

#[test]
fn derives_the_decay_gain_of_the_rt60_formula() {
    // room 50 ms, RT60 1 s: loop time 75 ms, 13.33 loops, -4.5 dB per loop,
    // gain 10^(-0.225) = 0.59566...
    let r = BasicReverb::new(fp(50.0), fp(1.0), fp(0.5), fp(0.7), 48000).unwrap();
    assert!((unfp(r.decay_gain()) - 0.5956621435290105).abs() < 1e-5);
    assert_eq!(r.dry(), fp(0.5));
    assert_eq!(r.wet(), fp(0.7));
}

#[test]
fn diffuser_delays_each_channel_by_its_staggered_length() {
    // At 50 ms / 48 kHz the staggered lengths are 150·(c+1) + 1 samples, so
    // a frame fed once surfaces on channel c exactly there.
    let mut d = Diffuser::new(fp(50.0), 48000);
    let zero = vec![0i64; CHANNELS];
    let mut ones = vec![0i64; CHANNELS];
    for c in 0..CHANNELS {
        ones[c] = fp(1.0);
    }
    let mut first_nonzero = vec![0usize; CHANNELS];
    for step in 0..1300 {
        let out = d.process(if step == 0 {
            &ones
        } else {
            &zero
        });
        for c in 0..CHANNELS {
            if first_nonzero[c] == 0 && out[c] != 0 {
                first_nonzero[c] = step;
            }
        }
    }
    for c in 0..CHANNELS {
        assert_eq!(first_nonzero[c], 150 * (c + 1) + 1);
    }
}

#[test]
fn dry_only_reverb_passes_input_through_exactly() {
    // wet = 0, dry = 1: the blend is the identity on the input frame.
    let mut r = BasicReverb::new(fp(50.0), fp(1.0), fp(1.0), 0, 48000).unwrap();
    let frame: Vec<i64> = (0..CHANNELS).map(|c| fp(0.1) * (c as i64 + 1)).collect();
    for _ in 0..100 {
        let out = r.process(&frame);
        assert_eq!(out, frame);
    }
}

#[test]
fn wet_tail_rms_reaches_minus_sixty_decibels_near_rt60() {
    // room 50 ms, RT60 1.0 s at 48 kHz: the windowed wet energy should fall
    // 60 dB below its peak about one second in (the loop-time estimate is
    // approximate, so allow ±20%).
    let mut r = BasicReverb::new(fp(50.0), fp(1.0), 0, fp(1.0), 48000).unwrap();
    let zero = vec![0i64; CHANNELS];
    let imp = impulse();
    let window: usize = 4800;
    let mut energies: Vec<f64> = Vec::new();
    let mut acc = 0.0f64;
    for step in 0..window * 20 {
        let out = r.process(if step == 0 {
            &imp
        } else {
            &zero
        });
        acc += out.iter().map(|&x| unfp(x) * unfp(x)).sum::<f64>();
        if (step + 1) % window == 0 {
            energies.push(acc);
            acc = 0.0;
        }
    }
    let peak = energies.iter().cloned().fold(0.0f64, f64::max);
    let peak_at = energies.iter().position(|&e| e == peak).unwrap();
    let mut first_below = None;
    for w in peak_at + 1..energies.len() {
        if energies[w] < 1e-6 * peak {
            first_below = Some(w);
            break;
        }
    }
    let w = first_below.expect("tail never fell 60 dB below its peak");
    let seconds = (w as f64 + 0.5) * window as f64 / 48000.0;
    assert!(
        (0.8..=1.2).contains(&seconds),
        "60 dB decay at {seconds} s, outside the RT60 tolerance band"
    );
}

#[test]
fn doubling_wet_doubles_the_wet_contribution() {
    // Fixed input and state, dry = 0: outputs under wet and 2·wet differ
    // from exact doubling by at most one fixed-point unit per sample.
    let mut r1 = BasicReverb::new(fp(50.0), fp(1.0), 0, fp(0.35), 48000).unwrap();
    let mut r2 = BasicReverb::new(fp(50.0), fp(1.0), 0, 2 * fp(0.35), 48000).unwrap();
    let zero = vec![0i64; CHANNELS];
    let imp = impulse();
    for step in 0..6000 {
        let input = if step == 0 {
            &imp
        } else {
            &zero
        };
        let o1 = r1.process(input);
        let o2 = r2.process(input);
        for c in 0..CHANNELS {
            assert!((o2[c] - 2 * o1[c]).abs() <= 1);
        }
    }
}

#[test]
fn identical_instances_are_bit_identical() {
    // Determinism: same parameters, same inputs, same outputs — to the bit.
    let mut r1 = BasicReverb::new(fp(37.5), fp(1.75), fp(0.4), fp(0.8), 44100).unwrap();
    let mut r2 = BasicReverb::new(fp(37.5), fp(1.75), fp(0.4), fp(0.8), 44100).unwrap();
    for step in 0..5000 {
        let frame: Vec<i64> =
            (0..CHANNELS).map(|c| fp(0.001) * ((step * 7 + c * 3) as i64 % 101 - 50)).collect();
        let o1 = r1.process(&frame);
        let o2 = r2.process(&frame);
        assert_eq!(o1, o2);
    }
}

#[test]
fn wet_reverb_produces_a_tail_after_silence() {
    // Feeding one impulse and then silence, a wet reverb keeps sounding:
    // some output after the input has been silent for a while.
    let mut r = BasicReverb::new(fp(50.0), fp(1.0), 0, fp(1.0), 48000).unwrap();
    let zero = vec![0i64; CHANNELS];
    let imp = impulse();
    let mut heard_late = false;
    for step in 0..20000 {
        let out = r.process(if step == 0 {
            &imp
        } else {
            &zero
        });
        if step > 10000 && out.iter().any(|&x| x != 0) {
            heard_late = true;
        }
    }
    assert!(heard_late, "the reverb tail died immediately");
}
