//! Derivation of the reverb's internal parameters from musical ones.
//!
//! Two quantities are computed here, both in Q30 fixed point.
//!
//! The decay gain: one trip around the feedback loop takes roughly
//! `room_size_ms · 1.5` milliseconds (an empirical geometry factor), so the
//! loop runs `rt60 / (typical_loop_ms · 0.001)` times during one RT60 period,
//! must lose `60 / loops_per_rt60` decibels per trip, and the matching linear
//! gain is `10^(-db_per_cycle / 20)`, evaluated as
//! `2^(-log2(10) · 3 / loops_per_rt60)`.
//!
//! The delay-length stagger: feedback delay lengths scale the base length by
//! `2^(c/8)` for channel `c`, so that no two channels' lengths fall into a
//! small common ratio; diffuser lengths take the fraction `(c+1)/16` of the
//! base length. Both formulas add one guard sample.
//!
//! `2^(-x)` is evaluated exactly as the spec functions here state it: split
//! `x` into integer and fractional Q30 parts, multiply out the fractional
//! bits against the table `2^(-2^-i)`, then halve once per integer step.

use crate::sample::{fp_mul_spec, tdiv, CHANNELS, FP_ONE};
use vstd::arithmetic::power2::{lemma_pow2_unfold, pow2};
use vstd::prelude::*;

verus! {

/// `log2(10)` in Q30 fixed point.
pub const LOG2_10_FP: i64 = 3566893132;

/// Largest accepted room size: one minute, as Q30 milliseconds.
pub const MAX_ROOM_MS_FP: i64 = 60_000 * FP_ONE;

/// Largest accepted RT60: one hour, as Q30 seconds.
pub const MAX_RT60_FP: i64 = 3_600 * FP_ONE;

/// Largest accepted sample rate in hertz.
pub const MAX_SAMPLE_RATE: u32 = 1_000_000;

/// The table `2^(-2^-i)` in Q30, for `i` in `1..=30`.
pub open spec fn frac_c_spec(i: int) -> int {
    if i == 1 {
        759250125
    } else if i == 2 {
        902905651
    } else if i == 3 {
        984625594
    } else if i == 4 {
        1028218693
    } else if i == 5 {
        1050733751
    } else if i == 6 {
        1062175491
    } else if i == 7 {
        1067942999
    } else if i == 8 {
        1070838486
    } else if i == 9 {
        1072289173
    } else if i == 10 {
        1073015252
    } else if i == 11 {
        1073378477
    } else if i == 12 {
        1073560135
    } else if i == 13 {
        1073650976
    } else if i == 14 {
        1073696399
    } else if i == 15 {
        1073719111
    } else if i == 16 {
        1073730468
    } else if i == 17 {
        1073736146
    } else if i == 18 {
        1073738985
    } else if i == 19 {
        1073740404
    } else if i == 20 {
        1073741114
    } else if i == 21 {
        1073741469
    } else if i == 22 {
        1073741647
    } else if i == 23 {
        1073741735
    } else if i == 24 {
        1073741780
    } else if i == 25 {
        1073741802
    } else if i == 26 {
        1073741813
    } else if i == 27 {
        1073741818
    } else if i == 28 {
        1073741821
    } else {
        1073741823
    }
}

/// Table lookup for one fractional bit.
fn frac_constant(i: usize) -> (r: i64)
    requires
        1 <= i <= 30,
    ensures
        r == frac_c_spec(i as int),
        0 < r < FP_ONE,
{
    if i == 1 {
        759250125
    } else if i == 2 {
        902905651
    } else if i == 3 {
        984625594
    } else if i == 4 {
        1028218693
    } else if i == 5 {
        1050733751
    } else if i == 6 {
        1062175491
    } else if i == 7 {
        1067942999
    } else if i == 8 {
        1070838486
    } else if i == 9 {
        1072289173
    } else if i == 10 {
        1073015252
    } else if i == 11 {
        1073378477
    } else if i == 12 {
        1073560135
    } else if i == 13 {
        1073650976
    } else if i == 14 {
        1073696399
    } else if i == 15 {
        1073719111
    } else if i == 16 {
        1073730468
    } else if i == 17 {
        1073736146
    } else if i == 18 {
        1073738985
    } else if i == 19 {
        1073740404
    } else if i == 20 {
        1073741114
    } else if i == 21 {
        1073741469
    } else if i == 22 {
        1073741647
    } else if i == 23 {
        1073741735
    } else if i == 24 {
        1073741780
    } else if i == 25 {
        1073741802
    } else if i == 26 {
        1073741813
    } else if i == 27 {
        1073741818
    } else if i == 28 {
        1073741821
    } else {
        1073741823
    }
}

/// The fractional-bit product: starting from accumulator `r` with `t` holding
/// the remaining fraction (Q30) at bit position `i`, the final accumulator.
pub open spec fn frac_steps(r: int, t: int, i: int) -> int
    decreases 31 - i,
{
    if i < 1 || i > 30 {
        r
    } else {
        let t2 = 2 * t;
        if t2 >= FP_ONE {
            frac_steps(fp_mul_spec(r, frac_c_spec(i)), t2 - FP_ONE, i + 1)
        } else {
            frac_steps(r, t2, i + 1)
        }
    }
}

/// `k` halvings, rounding down each time.
pub open spec fn halve_n(r: int, k: int) -> int
    decreases k,
{
    if k <= 0 {
        r
    } else {
        halve_n(r / 2, k - 1)
    }
}

/// `2^(-e/FP_ONE)` in Q30 fixed point, for `e >= 0`: the fractional bits of
/// the exponent select factors from the `2^(-2^-i)` table, then the integer
/// part halves the result once per unit.
pub open spec fn pow2_neg_spec(e: int) -> int
    recommends
        e >= 0,
{
    let k = e / (FP_ONE as int);
    let f = e % (FP_ONE as int);
    if k >= 63 {
        0
    } else {
        halve_n(frac_steps(FP_ONE as int, f, 1), k)
    }
}

/// A product with a factor in the unit interval stays at or below the other
/// factor, and strictly below `FP_ONE` if that factor is and both are in the
/// unit interval.
proof fn lemma_unit_product(r: int, c: int)
    requires
        0 <= r <= FP_ONE,
        0 <= c < FP_ONE,
    ensures
        0 <= fp_mul_spec(r, c) <= c,
{
    assert(r * c == c * r) by (nonlinear_arith);
    crate::sample::lemma_fp_mul_contracts(c, r);
}

/// Evaluate `2^(-e/FP_ONE)` in Q30. The result is never above `FP_ONE`
/// (the function never amplifies) and is strictly below it for any positive
/// exponent.
pub fn pow2_neg(e: i64) -> (r: i64)
    requires
        e >= 0,
    ensures
        r == pow2_neg_spec(e as int),
        0 <= r <= FP_ONE,
        e >= 1 ==> r < FP_ONE,
{
    let eu: u64 = e as u64;
    let k: u64 = eu / (FP_ONE as u64);
    let f: i64 = (eu % (FP_ONE as u64)) as i64;
    if k >= 63 {
        return 0;
    }
    let ghost f0 = f as int;
    proof {
        vstd::arithmetic::power2::lemma2_to64();
        assert(f0 == pow2(0) * f0) by (nonlinear_arith)
            requires
                pow2(0) == 1,
        ;
    }
    let mut r: i64 = FP_ONE;
    let mut t: i64 = f;
    let mut i: usize = 1;
    while i <= 30
        invariant
            1 <= i <= 31,
            0 <= t < FP_ONE,
            0 <= r <= FP_ONE,
            0 <= f0 < FP_ONE,
            frac_steps(r as int, t as int, i as int) == frac_steps(FP_ONE as int, f0, 1),
            r == FP_ONE ==> t == pow2((i - 1) as nat) * f0,
        decreases 31 - i,
    {
        let t2 = 2 * t;
        proof {
            if r == FP_ONE {
                lemma_pow2_unfold(i as nat);
                assert(2 * (pow2((i - 1) as nat) * f0) == pow2(i as nat) * f0) by (nonlinear_arith)
                    requires
                        pow2(i as nat) == 2 * pow2((i - 1) as nat),
                ;
            }
        }
        if t2 >= FP_ONE {
            let c = frac_constant(i);
            proof {
                lemma_unit_product(r as int, c as int);
            }
            r = crate::sample::fp_mul(r, c);
            t = t2 - FP_ONE;
        } else {
            t = t2;
        }
        i = i + 1;
    }
    proof {
        if r == FP_ONE && f0 >= 1 {
            assert(t == pow2(30) * f0);
            assert(pow2(30) == 0x4000_0000) by {
                vstd::arithmetic::power2::lemma2_to64();
            };
            assert(t >= 0x4000_0000) by (nonlinear_arith)
                requires
                    t == 0x4000_0000 * f0,
                    f0 >= 1,
            ;
            assert(false);
        }
    }
    let ghost rf = r as int;
    let mut j: u64 = 0;
    while j < k
        invariant
            0 <= j <= k,
            k < 63,
            0 <= r <= FP_ONE,
            halve_n(r as int, k - j) == halve_n(rf, k as int),
            j >= 1 ==> r <= FP_ONE / 2,
            r <= rf,
        decreases k - j,
    {
        r = ((r as u64) / 2) as i64;
        j = j + 1;
    }
    r
}

/// Typical time of one trip around the feedback loop: `room_size_ms · 1.5`
/// (the empirical geometry factor of the loop-length estimate).
pub open spec fn typical_loop_ms_spec(room_size_ms: int) -> int {
    tdiv(3 * room_size_ms, 2)
}

/// The decay gain derived from room size (Q30 ms) and RT60 (Q30 s): the
/// per-loop gain that loses 60 dB over one RT60 period, `10^(-3/loops)`
/// evaluated as `2^(-log2(10)·3/loops)`. A zero `loops` (an RT60 far below
/// one loop trip) decays completely within one trip: gain 0.
pub open spec fn decay_gain_spec(room_size_ms: int, rt60: int) -> int {
    let loop_ms = typical_loop_ms_spec(room_size_ms);
    let loops = crate::sample::fp_div_spec(1000 * rt60, loop_ms);
    if loops == 0 {
        0
    } else {
        let m10 = crate::sample::fp_div_spec(3 * (FP_ONE as int), loops);
        let m2 = fp_mul_spec(m10, LOG2_10_FP as int);
        pow2_neg_spec(m2)
    }
}

/// Derive the feedback decay gain from the musical parameters.
/// The result never exceeds `FP_ONE`: the derivation cannot ask the loop to
/// amplify. It equals `FP_ONE` exactly when the RT60 is so long, relative to
/// the loop time, that the per-loop attenuation rounds to nothing.
pub fn derive_decay_gain(room_size_ms: i64, rt60: i64) -> (g: i64)
    requires
        0 < room_size_ms <= MAX_ROOM_MS_FP,
        0 < rt60 <= MAX_RT60_FP,
    ensures
        g == decay_gain_spec(room_size_ms as int, rt60 as int),
        0 <= g <= FP_ONE,
{
    let loop_ms: i64 = ((3 * (room_size_ms as u64)) / 2) as i64;
    let loops: i64 = crate::sample::fp_div_pos(1000 * rt60, loop_ms);
    if loops == 0 {
        return 0;
    }
    let m10: i64 = crate::sample::fp_div_pos(3 * FP_ONE, loops);
    let m2: i64 = crate::sample::fp_mul(m10, LOG2_10_FP);
    proof {
        assert((m10 as int) * (LOG2_10_FP as int) >= 0) by (nonlinear_arith)
            requires
                m10 >= 0,
        ;
        crate::sample::lemma_tdiv_contracts((m10 as int) * (LOG2_10_FP as int), FP_ONE as int);
        crate::sample::lemma_sat64_contracts(
            tdiv((m10 as int) * (LOG2_10_FP as int), FP_ONE as int),
        );
    }
    pow2_neg(m2)
}

/// Base delay length in Q30 samples: milliseconds scaled by the sample rate.
pub open spec fn base_samples_spec(ms_fp: int, rate: int) -> int {
    tdiv(ms_fp * rate, 1000)
}

/// The per-channel stagger of the feedback delay lengths: `2^(c/8)` in Q30,
/// an exponential spread so that no two channels' lengths stand in a small
/// rational ratio.
pub open spec fn stagger_factor_spec(c: int) -> int {
    2 * pow2_neg_spec((8 - c) * ((FP_ONE as int) / 8))
}

/// Feedback delay length for channel `c`: `2^(c/8)` times the base length in
/// samples, plus one guard sample.
pub open spec fn feedback_len_spec(delay_ms: int, rate: int, c: int) -> int {
    tdiv(stagger_factor_spec(c) * base_samples_spec(delay_ms, rate), (FP_ONE as int) * (
    FP_ONE as int)) + 1
}

/// Diffuser delay length for channel `c`: the fraction `(c+1)/16` of the base
/// length in samples (the diffuser spreads the input over up to half the room
/// time, in distinct per-channel fractions), plus one guard sample.
pub open spec fn diffuser_len_spec(room_size_ms: int, rate: int, c: int) -> int {
    tdiv(base_samples_spec(room_size_ms, rate) * (c + 1), 16 * (FP_ONE as int)) + 1
}

/// Compute one feedback delay length.
pub fn feedback_delay_len(delay_ms: i64, sample_rate: u32, c: usize) -> (n: usize)
    requires
        0 <= delay_ms <= MAX_ROOM_MS_FP,
        sample_rate <= MAX_SAMPLE_RATE,
        c < CHANNELS,
    ensures
        n == feedback_len_spec(delay_ms as int, sample_rate as int, c as int),
        1 <= n <= 0x2000_0000,
{
    let e: i64 = (8 - c as i64) * 0x0800_0000;
    let factor: i64 = 2 * pow2_neg(e);
    proof {
        assert((FP_ONE as int) / 8 == 0x0800_0000);
        assert(factor == stagger_factor_spec(c as int));
        lemma_u128_mul_bound(delay_ms as u128, sample_rate as u128, MAX_ROOM_MS_FP as u128, (
        MAX_SAMPLE_RATE as u128));
    }
    let base: u128 = ((delay_ms as u128) * (sample_rate as u128)) / 1000;
    proof {
        assert(base == base_samples_spec(delay_ms as int, sample_rate as int));
        lemma_base_samples_bound(base, delay_ms as int, sample_rate as int);
        lemma_u128_mul_bound(factor as u128, base, 0x8000_0000u128, 0x100_0000_0000_0000u128);
    }
    let prod: u128 = (factor as u128) * base;
    let n128: u128 = prod / ((FP_ONE as u128) * (FP_ONE as u128));
    proof {
        vstd::arithmetic::div_mod::lemma_div_is_ordered(
            prod as int,
            0x8000_0000int * 0x100_0000_0000_0000int,
            ((FP_ONE as int) * (FP_ONE as int)),
        );
    }
    (n128 as usize) + 1
}

/// Bounded factors give a bounded, non-overflowing product.
proof fn lemma_u128_mul_bound(a: u128, b: u128, ca: u128, cb: u128)
    requires
        a <= ca,
        b <= cb,
        ca * cb <= u128::MAX,
    ensures
        a * b <= ca * cb,
{
    assert(a * b <= ca * cb) by (nonlinear_arith)
        requires
            a <= ca,
            b <= cb,
    ;
}

/// The base length in Q30 samples of any accepted configuration fits well
/// under 2^56.
proof fn lemma_base_samples_bound(base: u128, ms: int, rate: int)
    requires
        base == tdiv(ms * rate, 1000),
        0 <= ms <= MAX_ROOM_MS_FP,
        0 <= rate <= MAX_SAMPLE_RATE,
    ensures
        base <= 0x100_0000_0000_0000u128,
{
    assert(ms * rate <= (MAX_ROOM_MS_FP as int) * (MAX_SAMPLE_RATE as int)) by (nonlinear_arith)
        requires
            0 <= ms <= MAX_ROOM_MS_FP,
            0 <= rate <= MAX_SAMPLE_RATE,
    ;
    vstd::arithmetic::div_mod::lemma_div_is_ordered(
        ms * rate,
        (MAX_ROOM_MS_FP as int) * (MAX_SAMPLE_RATE as int),
        1000,
    );
}

/// Compute one diffuser delay length.
pub fn diffuser_delay_len(room_size_ms: i64, sample_rate: u32, c: usize) -> (n: usize)
    requires
        0 <= room_size_ms <= MAX_ROOM_MS_FP,
        sample_rate <= MAX_SAMPLE_RATE,
        c < CHANNELS,
    ensures
        n == diffuser_len_spec(room_size_ms as int, sample_rate as int, c as int),
        1 <= n <= 0x2000_0000,
{
    proof {
        lemma_u128_mul_bound(room_size_ms as u128, sample_rate as u128, MAX_ROOM_MS_FP as u128, (
        MAX_SAMPLE_RATE as u128));
    }
    let base: u128 = ((room_size_ms as u128) * (sample_rate as u128)) / 1000;
    proof {
        assert(base == base_samples_spec(room_size_ms as int, sample_rate as int));
        lemma_base_samples_bound(base, room_size_ms as int, sample_rate as int);
        lemma_u128_mul_bound(base, (c + 1) as u128, 0x100_0000_0000_0000u128, 8u128);
    }
    let prod: u128 = base * (c as u128 + 1);
    let n128: u128 = prod / (16 * (FP_ONE as u128));
    proof {
        vstd::arithmetic::div_mod::lemma_div_is_ordered(
            prod as int,
            0x100_0000_0000_0000int * 8int,
            16 * (FP_ONE as int),
        );
    }
    (n128 as usize) + 1
}

} // verus!
