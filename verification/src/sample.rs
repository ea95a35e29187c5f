//! The sample format shared by every stage of the reverb.
//!
//! A sample is a signed 64-bit fixed-point amplitude with `FP_SHIFT`
//! fractional bits, so `FP_ONE` stands for the real value 1.0. A frame is a
//! `Vec<i64>` of exactly `CHANNELS` samples. All arithmetic saturates at
//! `±i64::MAX` (the range is kept symmetric so that magnitudes always negate
//! without overflow) and products round toward zero, so no operation on
//! samples can panic or overflow.

use vstd::prelude::*;

verus! {

/// Number of audio channels in every frame.
pub const CHANNELS: usize = 8;

/// Number of fractional bits of the fixed-point sample format.
pub const FP_SHIFT: u32 = 30;

/// The fixed-point representation of the real value 1.0.
pub const FP_ONE: i64 = 0x4000_0000;

/// Largest sample magnitude: arithmetic saturates at `±SAT_MAX`.
pub const SAT_MAX: i64 = i64::MAX;

/// Magnitude below which the mixing stage is exact (no saturation anywhere):
/// 2^58, about 2.9·10^8 in real amplitude — far above any audio signal.
pub const LINEAR_LIMIT: i64 = 0x0400_0000_0000_0000;

/// Magnitude of an integer.
pub open spec fn iabs(v: int) -> int {
    if v >= 0 {
        v
    } else {
        -v
    }
}

/// Saturation to the symmetric sample range `[-SAT_MAX, SAT_MAX]`.
pub open spec fn sat64(v: int) -> int {
    if v > SAT_MAX {
        SAT_MAX as int
    } else if v < -(SAT_MAX as int) {
        -(SAT_MAX as int)
    } else {
        v
    }
}

/// Division rounding toward zero (the rounding of every fixed-point product
/// and quotient in this crate). Meaningful for `b > 0`.
pub open spec fn tdiv(a: int, b: int) -> int {
    if a >= 0 {
        a / b
    } else {
        -((-a) / b)
    }
}

/// What multiplying two fixed-point values yields: the full product scaled
/// back by `FP_ONE`, rounded toward zero, then saturated.
pub open spec fn fp_mul_spec(a: int, b: int) -> int {
    sat64(tdiv(a * b, FP_ONE as int))
}

/// What dividing two fixed-point values yields (for a positive divisor):
/// the dividend scaled up by `FP_ONE`, divided rounding toward zero, then
/// saturated.
pub open spec fn fp_div_spec(a: int, b: int) -> int {
    sat64(tdiv(a * (FP_ONE as int), b))
}

/// Sum of the samples of one frame.
pub open spec fn sum8(s: Seq<i64>) -> int
    recommends
        s.len() == CHANNELS,
{
    s[0] + s[1] + s[2] + s[3] + s[4] + s[5] + s[6] + s[7]
}

/// Total energy of one frame: the sum of its squared samples.
pub open spec fn energy8(s: Seq<i64>) -> int
    recommends
        s.len() == CHANNELS,
{
    s[0] * s[0] + s[1] * s[1] + s[2] * s[2] + s[3] * s[3] + s[4] * s[4] + s[5] * s[5] + s[6]
        * s[6] + s[7] * s[7]
}

/// True of a frame whose samples all lie within `lim` in magnitude.
pub open spec fn frame_bounded(s: Seq<i64>, lim: int) -> bool {
    forall|c: int| 0 <= c < s.len() ==> iabs(s[c] as int) <= lim
}

/// True of an all-zero frame.
pub open spec fn frame_zero(s: Seq<i64>) -> bool {
    forall|c: int| 0 <= c < s.len() ==> s[c] == 0i64
}

/// Magnitude of an `i64`, widened so that `i64::MIN` needs no special case.
fn abs128(a: i64) -> (r: i128)
    ensures
        r == iabs(a as int),
{
    let w: i128 = a as i128;
    if w < 0 {
        -w
    } else {
        w
    }
}

/// Clamp a wide intermediate back to the symmetric sample range.
pub fn clamp128(v: i128) -> (r: i64)
    ensures
        r == sat64(v as int),
{
    if v > SAT_MAX as i128 {
        SAT_MAX
    } else if v < -(SAT_MAX as i128) {
        -SAT_MAX
    } else {
        v as i64
    }
}

/// Saturating addition of two samples.
pub fn sat_add(a: i64, b: i64) -> (r: i64)
    ensures
        r == sat64(a + b),
{
    let w: i128 = a as i128 + b as i128;
    clamp128(w)
}

/// Saturating fixed-point division for a nonnegative dividend and a positive
/// divisor: exactly `fp_div_spec`.
pub fn fp_div_pos(a: i64, b: i64) -> (r: i64)
    requires
        a >= 0,
        b > 0,
    ensures
        r == fp_div_spec(a as int, b as int),
{
    let mag: u128 = ((a as u128) * (FP_ONE as u128)) / (b as u128);
    proof {
        assert((a as int) * (FP_ONE as int) == (a as u128) * (FP_ONE as u128));
    }
    if mag > SAT_MAX as u128 {
        SAT_MAX
    } else {
        mag as i64
    }
}

/// Saturation never grows a magnitude.
pub proof fn lemma_sat64_contracts(v: int)
    ensures
        iabs(sat64(v)) <= iabs(v),
        v >= 0 ==> sat64(v) >= 0,
        v <= 0 ==> sat64(v) <= 0,
{
}

/// Rounding toward zero never grows a magnitude and keeps the sign.
pub proof fn lemma_tdiv_contracts(a: int, b: int)
    requires
        b > 0,
    ensures
        iabs(tdiv(a, b)) * b <= iabs(a),
        a >= 0 ==> tdiv(a, b) >= 0,
        a <= 0 ==> tdiv(a, b) <= 0,
{
    if a >= 0 {
        vstd::arithmetic::div_mod::lemma_div_pos_is_pos(a, b);
        assert(b * (a / b) <= a) by {
            vstd::arithmetic::div_mod::lemma_fundamental_div_mod(a, b);
            vstd::arithmetic::div_mod::lemma_mod_bound(a, b);
        };
        assert(iabs(tdiv(a, b)) * b == b * (a / b)) by (nonlinear_arith)
            requires
                iabs(tdiv(a, b)) == a / b,
        ;
    } else {
        vstd::arithmetic::div_mod::lemma_div_pos_is_pos(-a, b);
        assert(b * ((-a) / b) <= -a) by {
            vstd::arithmetic::div_mod::lemma_fundamental_div_mod(-a, b);
            vstd::arithmetic::div_mod::lemma_mod_bound(-a, b);
        };
        assert(iabs(tdiv(a, b)) * b == b * ((-a) / b)) by (nonlinear_arith)
            requires
                iabs(tdiv(a, b)) == (-a) / b,
        ;
    }
}

/// Multiplying by a gain of magnitude at most one (in fixed point) never
/// grows a sample's magnitude, and a nonnegative sample stays nonnegative
/// under a nonnegative gain.
pub proof fn lemma_fp_mul_contracts(a: int, b: int)
    requires
        0 <= b <= FP_ONE,
    ensures
        iabs(fp_mul_spec(a, b)) <= iabs(a),
        a >= 0 ==> fp_mul_spec(a, b) >= 0,
        0 <= a ==> fp_mul_spec(a, b) <= a,
{
    let p = a * b;
    lemma_tdiv_contracts(p, FP_ONE as int);
    lemma_sat64_contracts(tdiv(p, FP_ONE as int));
    assert(iabs(p) <= iabs(a) * FP_ONE) by (nonlinear_arith)
        requires
            0 <= b <= FP_ONE,
            iabs(p) == if p >= 0 {
                p
            } else {
                -p
            },
            iabs(a) == if a >= 0 {
                a
            } else {
                -a
            },
            p == a * b,
    ;
    assert(iabs(tdiv(p, FP_ONE as int)) <= iabs(a)) by (nonlinear_arith)
        requires
            iabs(tdiv(p, FP_ONE as int)) * FP_ONE <= iabs(p),
            iabs(p) <= iabs(a) * FP_ONE,
            FP_ONE > 0,
            iabs(tdiv(p, FP_ONE as int)) >= 0,
            iabs(a) >= 0,
    ;
    if a >= 0 {
        assert(p >= 0) by (nonlinear_arith)
            requires
                a >= 0,
                b >= 0,
                p == a * b,
        ;
    }
}

/// Saturating fixed-point multiplication: `r` is `a·b` in real terms,
/// rounded toward zero and saturated, exactly `fp_mul_spec(a, b)`.
pub fn fp_mul(a: i64, b: i64) -> (r: i64)
    ensures
        r == fp_mul_spec(a as int, b as int),
{
    let neg: bool = (a < 0) != (b < 0);
    let ma: u128 = abs128(a) as u128;
    let mb: u128 = abs128(b) as u128;
    proof {
        assert(ma * mb <= 0x8000_0000_0000_0000u128 * 0x8000_0000_0000_0000u128)
            by (nonlinear_arith)
            requires
                ma <= 0x8000_0000_0000_0000u128,
                mb <= 0x8000_0000_0000_0000u128,
        ;
    }
    let mag: u128 = (ma * mb) / (FP_ONE as u128);
    proof {
        let p = (a as int) * (b as int);
        assert(ma * mb == iabs(p)) by (nonlinear_arith)
            requires
                ma == iabs(a as int),
                mb == iabs(b as int),
                p == (a as int) * (b as int),
        ;
        assert(iabs(p) / (FP_ONE as int) == iabs(tdiv(p, FP_ONE as int)));
        assert((p >= 0) == !neg || p == 0) by (nonlinear_arith)
            requires
                neg == ((a < 0) != (b < 0)),
                p == (a as int) * (b as int),
        ;
    }
    if neg {
        if mag > SAT_MAX as u128 {
            -SAT_MAX
        } else {
            -(mag as i64)
        }
    } else {
        if mag > SAT_MAX as u128 {
            SAT_MAX
        } else {
            mag as i64
        }
    }
}

} // verus!
