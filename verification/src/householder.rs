//! The mixing matrix of the feedback loop: a Householder reflection about the
//! normalized all-ones vector. For `CHANNELS` = 8 channels the reflection
//! subtracts `2·sum/8 = sum/4` from every sample, which spreads any one
//! channel's signal across all channels without adding energy. The stage is
//! stateless and implemented as a free function over one frame.
//!
//! In this fixed-point arithmetic the subtracted shift is rounded toward
//! zero, so the reflection is energy-preserving up to that rounding — and the
//! rounding can only *lose* energy, never add it, which is the property the
//! feedback loop's stability rests on (`lemma_mix_never_adds_energy`).

use crate::sample::{
    energy8, frame_bounded, iabs, sat64, sum8, tdiv, CHANNELS, LINEAR_LIMIT, SAT_MAX,
};
use vstd::prelude::*;

verus! {

/// The amount subtracted from every channel: `2·sum/C` with `C = 8`,
/// rounded toward zero.
pub open spec fn hh_shift(s: Seq<i64>) -> int {
    tdiv(sum8(s), 4)
}

/// The reflected frame: every sample less the shift, saturated.
pub open spec fn hh_apply(s: Seq<i64>) -> Seq<i64> {
    Seq::new(CHANNELS as nat, |c: int| sat64(s[c] - hh_shift(s)) as i64)
}

/// Replace `frame` with its Householder reflection `frame - (2·sum/C)·ones`.
pub fn householder_mix(frame: &mut Vec<i64>)
    requires
        old(frame)@.len() == CHANNELS,
    ensures
        final(frame)@ == hh_apply(old(frame)@),
{
    let mut sum: i128 = 0;
    let mut c: usize = 0;
    while c < CHANNELS
        invariant
            0 <= c <= CHANNELS,
            frame@.len() == CHANNELS,
            frame@ == old(frame)@,
            iabs(sum as int) <= c * 0x8000_0000_0000_0000,
            sum == sum_prefix(frame@, c as int),
        decreases CHANNELS - c,
    {
        sum = sum + frame[c] as i128;
        c = c + 1;
    }
    proof {
        lemma_sum8_prefix(frame@);
    }
    let neg: bool = sum < 0;
    let mag: u128 = if neg {
        ((-sum) as u128) / 4
    } else {
        (sum as u128) / 4
    };
    let shift: i128 = if neg {
        -(mag as i128)
    } else {
        mag as i128
    };
    proof {
        assert(shift == hh_shift(frame@));
    }
    let mut c: usize = 0;
    while c < CHANNELS
        invariant
            0 <= c <= CHANNELS,
            frame@.len() == CHANNELS,
            shift == hh_shift(old(frame)@),
            iabs(shift as int) <= 0x4000_0000_0000_0000_0000,
            forall|i: int| c <= i < CHANNELS ==> frame@[i] == old(frame)@[i],
            forall|i: int|
                0 <= i < c ==> frame@[i] as int == sat64(old(frame)@[i] - hh_shift(old(frame)@)),
        decreases CHANNELS - c,
    {
        let v: i128 = frame[c] as i128 - shift;
        frame[c] = crate::sample::clamp128(v);
        c = c + 1;
    }
    proof {
        assert(frame@ =~= hh_apply(old(frame)@));
    }
}

/// Sum of the first `n` samples of a frame, as the summation loop builds it.
pub open spec fn sum_prefix(s: Seq<i64>, n: int) -> int
    decreases n,
{
    if n <= 0 {
        0
    } else {
        sum_prefix(s, n - 1) + s[n - 1]
    }
}

/// The full prefix sum is `sum8`.
proof fn lemma_sum8_prefix(s: Seq<i64>)
    requires
        s.len() == CHANNELS,
    ensures
        sum_prefix(s, CHANNELS as int) == sum8(s),
{
    reveal_with_fuel(sum_prefix, 9);
}

/// Expanding the square of a difference.
proof fn lemma_square_of_difference(a: int, t: int)
    by (nonlinear_arith)
    ensures
        (a - t) * (a - t) == a * a - 2 * (a * t) + t * t,
{
}

/// The shift keeps the same sign as the frame sum, misses `sum/4` by less
/// than one, and is bounded by a quarter of the sum's magnitude.
proof fn lemma_shift_remainder(s: Seq<i64>)
    requires
        s.len() == CHANNELS,
    ensures
        iabs(sum8(s) - 4 * hh_shift(s)) <= 3,
        (sum8(s) - 4 * hh_shift(s)) * hh_shift(s) >= 0,
        4 * iabs(hh_shift(s)) <= iabs(sum8(s)),
{
    let sum = sum8(s);
    let t = hh_shift(s);
    if sum >= 0 {
        assert(sum == 4 * (sum / 4) + sum % 4);
    } else {
        assert((-sum) == 4 * ((-sum) / 4) + (-sum) % 4);
        assert(t == -((-sum) / 4));
    }
    let r = sum - 4 * t;
    assert(r * t >= 0) by (nonlinear_arith)
        requires
            (t >= 0 && r >= 0) || (t <= 0 && r <= 0),
    ;
}

/// ENERGY PRESERVATION OF THE MIX, fixed-point form: for any frame whose
/// samples stay within the linear range, the total energy (sum of squared
/// samples) after the Householder reflection never exceeds the energy before
/// it, and falls short of it by at most `6·|shift|` — the energy lost to
/// rounding the shift toward zero. With an exact shift the two energies would
/// be equal; rounding toward zero can only take energy away.
pub proof fn lemma_mix_never_adds_energy(s: Seq<i64>)
    requires
        s.len() == CHANNELS,
        frame_bounded(s, LINEAR_LIMIT as int),
    ensures
        energy8(hh_apply(s)) <= energy8(s),
        energy8(s) - energy8(hh_apply(s)) <= 6 * iabs(hh_shift(s)),
{
    let sum = sum8(s);
    let t = hh_shift(s);
    let r = sum - 4 * t;
    lemma_shift_remainder(s);
    let y = hh_apply(s);
    assert(iabs(t) <= 2 * LINEAR_LIMIT);
    assert forall|c: int| 0 <= c < CHANNELS implies y[c] as int == s[c] - t by {
        assert(iabs(s[c] as int) <= LINEAR_LIMIT as int);
        assert(sat64(s[c] - t) == s[c] - t);
    }
    assert forall|c: int| 0 <= c < CHANNELS implies (y[c] as int) * (y[c] as int) == (
    s[c] as int) * (s[c] as int) - 2 * ((s[c] as int) * t) + t * t by {
        lemma_square_of_difference(s[c] as int, t);
    }
    assert(energy8(y) == energy8(s) - 2 * ((s[0] as int) * t + (s[1] as int) * t + (
    s[2] as int) * t + (s[3] as int) * t + (s[4] as int) * t + (s[5] as int) * t + (
    s[6] as int) * t + (s[7] as int) * t) + 8 * (t * t));
    assert((s[0] as int) * t + (s[1] as int) * t + (s[2] as int) * t + (s[3] as int) * t + (
    s[4] as int) * t + (s[5] as int) * t + (s[6] as int) * t + (s[7] as int) * t == sum * t)
        by (nonlinear_arith)
        requires
            sum == s[0] + s[1] + s[2] + s[3] + s[4] + s[5] + s[6] + s[7],
    ;
    assert(2 * (sum * t) - 8 * (t * t) == 2 * t * r) by (nonlinear_arith)
        requires
            r == sum - 4 * t,
    ;
    assert(0 <= 2 * t * r <= 6 * iabs(t)) by (nonlinear_arith)
        requires
            r * t >= 0,
            iabs(r) <= 3,
            iabs(t) == if t >= 0 {
                t
            } else {
                -t
            },
            iabs(r) == if r >= 0 {
                r
            } else {
                -r
            },
    ;
}

/// INVOLUTION, fixed-point form: reflecting a frame twice returns the
/// original frame up to at most one least-significant fixed-point unit per
/// channel. With exact arithmetic the reflection is its own inverse; the two
/// roundings of the shift can move each sample by at most one unit in all.
#[verifier::rlimit(80)]
pub proof fn lemma_mix_involution(s: Seq<i64>)
    requires
        s.len() == CHANNELS,
        frame_bounded(s, LINEAR_LIMIT as int),
    ensures
        forall|c: int|
            0 <= c < CHANNELS ==> iabs(hh_apply(hh_apply(s))[c] - s[c]) <= 1,
{
    let sum = sum8(s);
    let t = hh_shift(s);
    let r = sum - 4 * t;
    lemma_shift_remainder(s);
    let y = hh_apply(s);
    assert forall|c: int| 0 <= c < CHANNELS implies y[c] as int == s[c] - t by {
        assert(iabs(s[c] as int) <= LINEAR_LIMIT as int);
        assert(sat64(s[c] - t) == s[c] - t);
    }
    let sum2 = sum8(y);
    assert(sum2 == sum - 8 * t);
    assert(sum2 == r - 4 * t);
    let t2 = hh_shift(y);
    // The second shift almost cancels the first: t2 + t is 0 or ±1.
    if sum >= 0 {
        if t == 0 {
            assert(t2 == tdiv(r, 4));
            assert(t2 == 0);
        } else {
            assert(r - 4 * t < 0);
            assert(t2 == -((4 * t - r) / 4));
            if r == 0 {
                assert((4 * t - r) / 4 == t);
            } else {
                assert(4 * t - r == 4 * (t - 1) + (4 - r));
                assert((4 * t - r) / 4 == t - 1);
            }
        }
    } else {
        if t == 0 {
            assert(t2 == -((-r) / 4));
            assert(t2 == 0);
        } else {
            assert(r - 4 * t > 0);
            assert(t2 == (4 * (-t) + r) / 4);
            if r == 0 {
                assert(t2 == -t);
            } else {
                assert(4 * (-t) + r == 4 * (-t - 1) + (4 + r));
                assert(t2 == -t - 1);
            }
        }
    }
    assert(iabs(t + t2) <= 1);
    let z = hh_apply(y);
    assert forall|c: int| 0 <= c < CHANNELS implies iabs(z[c] - s[c]) <= 1 by {
        assert(iabs(y[c] as int) <= LINEAR_LIMIT + 2 * LINEAR_LIMIT);
        assert(iabs(t2) <= iabs(t) + 1);
        assert(sat64(y[c] - t2) == y[c] - t2);
        assert(z[c] as int == s[c] - t - t2);
    }
}

} // verus!
