//! The top-level reverb effect: one diffuser, one mixed-feedback loop, and a
//! dry/wet blend. Construction derives the internal parameters (delay
//! lengths, decay gain) from musical ones (room size, RT60, sample rate) and
//! rejects misconfiguration; a process step diffuses the input, runs it
//! through the feedback loop and blends, per channel, `dry·input + wet·tail`.

use crate::diffuser::{diffuser_out, diffuser_step, diffuser_wf, Diffuser};
use crate::multi_channel_mixed_feedback::{
    feedback_out, feedback_step, feedback_wf, FeedbackView, MultiChannelMixedFeedback,
};
use crate::sample::{fp_mul_spec, sat64, CHANNELS, FP_ONE};
use crate::tuning::{
    decay_gain_spec, diffuser_len_spec, feedback_len_spec, MAX_ROOM_MS_FP, MAX_RT60_FP,
    MAX_SAMPLE_RATE,
};
use crate::delay::{delay_zero, DelayView};
use vstd::prelude::*;

verus! {

/// A constructor parameter the reverb cannot work with. Misconfiguration is
/// rejected when the effect is built; processing itself cannot fail.
#[derive(Debug, PartialEq, Eq, Structural)]
pub enum ConfigError {
    /// Room size not positive, or beyond `MAX_ROOM_MS_FP`.
    RoomSizeOutOfRange,
    /// RT60 not positive, or beyond `MAX_RT60_FP`.
    Rt60OutOfRange,
    /// Sample rate zero, or beyond `MAX_SAMPLE_RATE`.
    SampleRateOutOfRange,
    /// The derived per-loop gain would not attenuate (RT60 too long for the
    /// room): the loop would never decay.
    UnstableDecay,
}

/// The mathematical value of the whole effect.
pub ghost struct ReverbView {
    pub dry: i64,
    pub wet: i64,
    pub diff: Seq<DelayView>,
    pub fb: FeedbackView,
}

/// Well-formedness of the whole effect.
pub open spec fn reverb_wf(v: ReverbView) -> bool {
    &&& diffuser_wf(v.diff)
    &&& feedback_wf(v.fb)
}

/// A room size the reverb accepts: positive, at most one minute.
pub open spec fn valid_room_size(room_size_ms: int) -> bool {
    0 < room_size_ms <= MAX_ROOM_MS_FP
}

/// An RT60 the reverb accepts: positive, at most one hour.
pub open spec fn valid_rt60(rt60: int) -> bool {
    0 < rt60 <= MAX_RT60_FP
}

/// A sample rate the reverb accepts: positive, at most `MAX_SAMPLE_RATE`.
pub open spec fn valid_sample_rate(rate: int) -> bool {
    0 < rate <= MAX_SAMPLE_RATE
}

/// The frame a process step returns: per channel, the dry input plus the wet
/// reverberated tail — an exact linear combination in this fixed-point
/// arithmetic, `dry·input[c] + wet·tail[c]`, where the tail is what the
/// feedback loop returns for the pre-step state.
pub open spec fn reverb_out(v: ReverbView, input: Seq<i64>) -> Seq<i64> {
    Seq::new(
        CHANNELS as nat,
        |c: int|
            sat64(
                fp_mul_spec(v.dry as int, input[c] as int) + fp_mul_spec(
                    v.wet as int,
                    feedback_out(v.fb)[c] as int,
                ),
            ) as i64,
    )
}

/// The state after one process step: the diffuser stepped with the input,
/// the feedback loop stepped with the diffused frame; dry and wet unchanged.
pub open spec fn reverb_step(v: ReverbView, input: Seq<i64>) -> ReverbView {
    ReverbView {
        dry: v.dry,
        wet: v.wet,
        diff: diffuser_step(v.diff, input),
        fb: feedback_step(v.fb, diffuser_out(v.diff)),
    }
}

/// The reverb effect.
pub struct BasicReverb {
    dry: i64,
    wet: i64,
    diffuser: Diffuser,
    feedback: MultiChannelMixedFeedback,
}

impl View for BasicReverb {
    type V = ReverbView;

    closed spec fn view(&self) -> ReverbView {
        ReverbView { dry: self.dry, wet: self.wet, diff: self.diffuser@, fb: self.feedback@ }
    }
}

impl BasicReverb {
    /// Build the effect from room size (Q30 milliseconds), RT60 (Q30
    /// seconds), dry and wet gains (Q30) and the sample rate. Each parameter
    /// out of range yields its configuration error, checked in argument
    /// order; a parameter combination whose derived decay gain would not
    /// attenuate (gain at or above one) is rejected as unstable. On success
    /// the effect starts silent, with the decay gain strictly below one.
    pub fn new(room_size_ms: i64, rt60: i64, dry: i64, wet: i64, sample_rate: u32) -> (r: Result<
        BasicReverb,
        ConfigError,
    >)
        ensures
            r is Err ==> r->Err_0 == new_error_spec(
                room_size_ms as int,
                rt60 as int,
                sample_rate as int,
            )->Some_0,
            r is Ok <==> new_error_spec(room_size_ms as int, rt60 as int, sample_rate as int)
                is None,
            r is Ok ==> {
                let v = r->Ok_0@;
                &&& reverb_wf(v)
                &&& v.dry == dry
                &&& v.wet == wet
                &&& v.fb.gain == decay_gain_spec(room_size_ms as int, rt60 as int)
                &&& 0 <= v.fb.gain < FP_ONE
                &&& (forall|c: int|
                    0 <= c < CHANNELS ==> #[trigger] v.diff[c] == delay_zero(
                        diffuser_len_spec(room_size_ms as int, sample_rate as int, c) as nat,
                    ))
                &&& (forall|c: int|
                    0 <= c < CHANNELS ==> #[trigger] v.fb.delays[c] == delay_zero(
                        feedback_len_spec(room_size_ms as int, sample_rate as int, c) as nat,
                    ))
            },
    {
        if room_size_ms <= 0 || room_size_ms > MAX_ROOM_MS_FP {
            return Err(ConfigError::RoomSizeOutOfRange);
        }
        if rt60 <= 0 || rt60 > MAX_RT60_FP {
            return Err(ConfigError::Rt60OutOfRange);
        }
        if sample_rate == 0 || sample_rate > MAX_SAMPLE_RATE {
            return Err(ConfigError::SampleRateOutOfRange);
        }
        let decay_gain = crate::tuning::derive_decay_gain(room_size_ms, rt60);
        if decay_gain >= FP_ONE {
            return Err(ConfigError::UnstableDecay);
        }
        let diffuser = Diffuser::new(room_size_ms, sample_rate);
        let delay_ms = room_size_ms;
        let feedback = MultiChannelMixedFeedback::new(delay_ms, decay_gain, sample_rate);
        Ok(BasicReverb { dry, wet, diffuser, feedback })
    }

    /// One frame through the effect: diffuse the input, run the feedback
    /// loop on the diffused frame, and blend `dry·input[c] + wet·tail[c]`
    /// per channel.
    pub fn process(&mut self, input: &Vec<i64>) -> (out: Vec<i64>)
        requires
            reverb_wf(old(self)@),
            input@.len() == CHANNELS,
        ensures
            out@ == reverb_out(old(self)@, input@),
            final(self)@ == reverb_step(old(self)@, input@),
            reverb_wf(final(self)@),
    {
        let diffuse = self.diffuser.process(input);
        let tail = self.feedback.process(&diffuse);
        let mut out: Vec<i64> = Vec::new();
        let mut c: usize = 0;
        while c < CHANNELS
            invariant
                0 <= c <= CHANNELS,
                input@.len() == CHANNELS,
                tail@.len() == CHANNELS,
                tail@ == feedback_out(old(self)@.fb),
                self@.dry == old(self)@.dry,
                self@.wet == old(self)@.wet,
                out@.len() == c,
                forall|i: int|
                    0 <= i < c ==> out@[i] as int == sat64(
                        fp_mul_spec(old(self)@.dry as int, input@[i] as int) + fp_mul_spec(
                            old(self)@.wet as int,
                            feedback_out(old(self)@.fb)[i] as int,
                        ),
                    ),
            decreases CHANNELS - c,
        {
            let d = crate::sample::fp_mul(self.dry, input[c]);
            let w = crate::sample::fp_mul(self.wet, tail[c]);
            out.push(crate::sample::sat_add(d, w));
            c = c + 1;
        }
        proof {
            assert(out@ =~= reverb_out(old(self)@, input@));
        }
        out
    }

    /// The dry gain of the blend.
    pub fn dry(&self) -> (r: i64)
        ensures
            r == self@.dry,
    {
        self.dry
    }

    /// The wet gain of the blend.
    pub fn wet(&self) -> (r: i64)
        ensures
            r == self@.wet,
    {
        self.wet
    }

    /// The decay gain the constructor derived.
    pub fn decay_gain(&self) -> (g: i64)
        ensures
            g == self@.fb.gain,
    {
        self.feedback.decay_gain()
    }
}

/// Which configuration error `new` yields, if any: parameters are checked in
/// argument order, then the derived decay gain must attenuate.
pub open spec fn new_error_spec(room_size_ms: int, rt60: int, rate: int) -> Option<ConfigError> {
    if !valid_room_size(room_size_ms) {
        Some(ConfigError::RoomSizeOutOfRange)
    } else if !valid_rt60(rt60) {
        Some(ConfigError::Rt60OutOfRange)
    } else if !valid_sample_rate(rate) {
        Some(ConfigError::SampleRateOutOfRange)
    } else if decay_gain_spec(room_size_ms, rt60) >= FP_ONE {
        Some(ConfigError::UnstableDecay)
    } else {
        None
    }
}

/// Doubling a nonnegative dividend at most adds one to a rounded quotient.
proof fn lemma_tdiv_doubling_nonneg(a: int)
    requires
        a >= 0,
    ensures
        2 * (a / (FP_ONE as int)) <= (2 * a) / (FP_ONE as int) <= 2 * (a / (FP_ONE as int)) + 1,
{
    let d = FP_ONE as int;
    let q = a / d;
    let m = a % d;
    vstd::arithmetic::div_mod::lemma_fundamental_div_mod(a, d);
    vstd::arithmetic::div_mod::lemma_mod_bound(a, d);
    if 2 * m < d {
        vstd::arithmetic::div_mod::lemma_fundamental_div_mod_converse(2 * a, d, 2 * q, 2 * m);
    } else {
        vstd::arithmetic::div_mod::lemma_fundamental_div_mod_converse(
            2 * a,
            d,
            2 * q + 1,
            2 * m - d,
        );
    }
}

/// DRY/WET BLEND LINEARITY, gain-scaling half: the blend is the exact linear
/// combination `dry·input + wet·tail` (that is `reverb_out`'s definition, and
/// `process` returns it), and doubling the wet gain doubles the wet
/// contribution to each channel exactly up to the one fixed-point rounding
/// step of the product.
pub proof fn lemma_wet_doubling(wet: int, tail: int)
    requires
        crate::sample::iabs(wet) <= FP_ONE,
        crate::sample::iabs(tail) <= crate::sample::LINEAR_LIMIT,
    ensures
        crate::sample::iabs(fp_mul_spec(2 * wet, tail) - 2 * fp_mul_spec(wet, tail)) <= 1,
{
    let one = FP_ONE as int;
    let a = wet * tail;
    assert(2 * wet * tail == 2 * a) by (nonlinear_arith)
        requires
            a == wet * tail,
    ;
    assert(crate::sample::iabs(a) <= 0x100_0000_0000_0000_0000_0000int) by (nonlinear_arith)
        requires
            crate::sample::iabs(wet) <= FP_ONE,
            crate::sample::iabs(tail) <= crate::sample::LINEAR_LIMIT,
            crate::sample::iabs(a) == if a >= 0 {
                a
            } else {
                -a
            },
            crate::sample::iabs(wet) == if wet >= 0 {
                wet
            } else {
                -wet
            },
            crate::sample::iabs(tail) == if tail >= 0 {
                tail
            } else {
                -tail
            },
            a == wet * tail,
    ;
    let q1 = crate::sample::tdiv(a, one);
    let q2 = crate::sample::tdiv(2 * a, one);
    assert(fp_mul_spec(2 * wet, tail) == sat64(q2));
    assert(fp_mul_spec(wet, tail) == sat64(q1));
    if a >= 0 {
        lemma_tdiv_doubling_nonneg(a);
        vstd::arithmetic::div_mod::lemma_div_pos_is_pos(a, one);
        vstd::arithmetic::div_mod::lemma_div_is_ordered(a, 0x100_0000_0000_0000_0000_0000int, one);
        vstd::arithmetic::div_mod::lemma_div_is_ordered(
            2 * a,
            0x200_0000_0000_0000_0000_0000int,
            one,
        );
        assert(2 * q1 <= q2 <= 2 * q1 + 1);
        assert(0 <= q1 <= 0x400_0000_0000_0000int);
        assert(sat64(q1) == q1 && sat64(q2) == q2);
    } else {
        lemma_tdiv_doubling_nonneg(-a);
        vstd::arithmetic::div_mod::lemma_div_pos_is_pos(-a, one);
        vstd::arithmetic::div_mod::lemma_div_is_ordered(
            -a,
            0x100_0000_0000_0000_0000_0000int,
            one,
        );
        vstd::arithmetic::div_mod::lemma_div_is_ordered(
            2 * (-a),
            0x200_0000_0000_0000_0000_0000int,
            one,
        );
        assert(q1 == -((-a) / one) && q2 == -((2 * (-a)) / one));
        assert(2 * q1 - 1 <= q2 <= 2 * q1);
        assert(-0x400_0000_0000_0000int <= q1 <= 0);
        assert(sat64(q1) == q1 && sat64(q2) == q2);
    }
}

/// DETERMINISM: the effect is a pure function of its state and input. Two
/// instances in equal states, fed equal frames, emit equal frames and land
/// in equal states — `process`'s contract pins both as `reverb_out` and
/// `reverb_step` of the pre-state and input alone, which this lemma states
/// explicitly.
pub proof fn lemma_process_deterministic(
    v1: ReverbView,
    v2: ReverbView,
    x1: Seq<i64>,
    x2: Seq<i64>,
)
    requires
        v1 == v2,
        x1 == x2,
    ensures
        reverb_out(v1, x1) == reverb_out(v2, x2),
        reverb_step(v1, x1) == reverb_step(v2, x2),
{
}

} // verus!
