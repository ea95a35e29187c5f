//! The heart of the reverb: one delay line per channel whose outputs are
//! mixed through the Householder reflection, scaled by the decay gain,
//! summed with fresh input and written back into the same lines. Each call
//! returns the pre-mix delayed frame, so the caller always observes the
//! previous trips' mixed-and-decayed energy; newly injected input surfaces
//! one delay length later. Because the mix never adds energy and the decay
//! gain never amplifies (magnitude at most one), the total energy stored in
//! the lines cannot grow while the input is silent — the loop is stable even
//! at the boundary gain of exactly one.

use crate::delay::{delay_out, delay_step, delay_wf, delay_zero, Delay, DelayView};
use crate::householder::{hh_apply, householder_mix, lemma_mix_never_adds_energy};
use crate::sample::{
    energy8, fp_mul_spec, frame_bounded, frame_zero, iabs, sat64, CHANNELS, FP_ONE, LINEAR_LIMIT,
};
use crate::tuning::{feedback_len_spec, MAX_ROOM_MS_FP, MAX_SAMPLE_RATE};
use vstd::prelude::*;

verus! {

/// The mathematical value of the feedback stage: its delay lines and gain.
pub ghost struct FeedbackView {
    pub delays: Seq<DelayView>,
    pub gain: i64,
}

/// Well-formedness: one well-formed delay line per channel.
pub open spec fn feedback_wf(v: FeedbackView) -> bool {
    &&& v.delays.len() == CHANNELS
    &&& forall|c: int| 0 <= c < CHANNELS ==> delay_wf(#[trigger] v.delays[c])
}

/// The frame a process step returns: every channel's delayed sample as it
/// stands before the step's writes — the reverberated tail.
pub open spec fn feedback_out(v: FeedbackView) -> Seq<i64> {
    Seq::new(CHANNELS as nat, |c: int| delay_out(v.delays[c]))
}

/// The sample written back into channel `c`'s line: fresh input plus the
/// mixed delayed frame scaled by the decay gain.
pub open spec fn feedback_written(v: FeedbackView, input: Seq<i64>, c: int) -> int {
    sat64(input[c] + fp_mul_spec(hh_apply(feedback_out(v))[c] as int, v.gain as int))
}

/// The state after one process step: every line stepped with its written
/// sample; the gain unchanged.
pub open spec fn feedback_step(v: FeedbackView, input: Seq<i64>) -> FeedbackView {
    FeedbackView {
        delays: Seq::new(
            CHANNELS as nat,
            |c: int| delay_step(v.delays[c], feedback_written(v, input, c) as i64),
        ),
        gain: v.gain,
    }
}

/// Energy held in one buffer: the sum of its squared samples.
pub open spec fn seq_energy(s: Seq<i64>) -> int
    decreases s.len(),
{
    if s.len() == 0 {
        0
    } else {
        (s.last() as int) * (s.last() as int) + seq_energy(s.drop_last())
    }
}

/// Total energy stored in the feedback loop: over all channels' buffers.
pub open spec fn fb_energy(v: FeedbackView) -> int
    recommends
        v.delays.len() == CHANNELS,
{
    seq_energy(v.delays[0].buf) + seq_energy(v.delays[1].buf) + seq_energy(v.delays[2].buf)
        + seq_energy(v.delays[3].buf) + seq_energy(v.delays[4].buf) + seq_energy(v.delays[5].buf)
        + seq_energy(v.delays[6].buf) + seq_energy(v.delays[7].buf)
}

/// True when every sample stored in the loop lies within `lim` in magnitude.
pub open spec fn feedback_bounded(v: FeedbackView, lim: int) -> bool {
    forall|c: int|
        0 <= c < CHANNELS ==> frame_bounded(#[trigger] v.delays[c].buf, lim)
}

/// The mixed feedback stage: `CHANNELS` delay lines and one decay gain.
pub struct MultiChannelMixedFeedback {
    delays: Vec<Delay>,
    decay_gain: i64,
}

impl View for MultiChannelMixedFeedback {
    type V = FeedbackView;

    closed spec fn view(&self) -> FeedbackView {
        FeedbackView {
            delays: Seq::new(self.delays@.len(), |c: int| self.delays@[c]@),
            gain: self.decay_gain,
        }
    }
}

impl MultiChannelMixedFeedback {
    /// Build the loop from the base delay time (Q30 milliseconds), the decay
    /// gain (Q30) and the sample rate: channel `c` gets a silent line of
    /// `2^(c/8)` times the base length plus a guard sample, an exponential
    /// stagger that keeps channel lengths out of small rational ratios.
    pub fn new(delay_ms: i64, decay_gain: i64, sample_rate: u32) -> (fb:
        MultiChannelMixedFeedback)
        requires
            0 <= delay_ms <= MAX_ROOM_MS_FP,
            sample_rate <= MAX_SAMPLE_RATE,
        ensures
            feedback_wf(fb@),
            fb@.gain == decay_gain,
            forall|c: int|
                0 <= c < CHANNELS ==> #[trigger] fb@.delays[c] == delay_zero(
                    feedback_len_spec(delay_ms as int, sample_rate as int, c) as nat,
                ),
    {
        let mut delays: Vec<Delay> = Vec::new();
        let mut c: usize = 0;
        while c < CHANNELS
            invariant
                0 <= c <= CHANNELS,
                delays@.len() == c,
                0 <= delay_ms <= MAX_ROOM_MS_FP,
                sample_rate <= MAX_SAMPLE_RATE,
                forall|i: int|
                    0 <= i < c ==> delay_wf(#[trigger] delays@[i]@) && delays@[i]@ == delay_zero(
                        feedback_len_spec(delay_ms as int, sample_rate as int, i) as nat,
                    ),
            decreases CHANNELS - c,
        {
            let n = crate::tuning::feedback_delay_len(delay_ms, sample_rate, c);
            delays.push(Delay::new(n));
            c = c + 1;
        }
        MultiChannelMixedFeedback { delays, decay_gain }
    }

    /// The decay gain applied once per loop trip.
    pub fn decay_gain(&self) -> (g: i64)
        ensures
            g == self@.gain,
    {
        self.decay_gain
    }

    /// One trip around the loop: return the delayed frame read before any
    /// write; mix a copy of it through the Householder reflection, scale it
    /// by the decay gain, add the fresh input and write the result back into
    /// the lines for the next trips.
    pub fn process(&mut self, input: &Vec<i64>) -> (out: Vec<i64>)
        requires
            feedback_wf(old(self)@),
            input@.len() == CHANNELS,
        ensures
            out@ == feedback_out(old(self)@),
            final(self)@ == feedback_step(old(self)@, input@),
            feedback_wf(final(self)@),
    {
        let mut delayed: Vec<i64> = Vec::new();
        let mut c: usize = 0;
        while c < CHANNELS
            invariant
                0 <= c <= CHANNELS,
                feedback_wf(self@),
                self@ == old(self)@,
                delayed@.len() == c,
                forall|i: int| 0 <= i < c ==> delayed@[i] == delay_out(#[trigger] self@.delays[i]),
            decreases CHANNELS - c,
        {
            proof {
                assert(self@.delays[c as int] == self.delays@[c as int]@);
            }
            delayed.push(self.delays[c].read());
            c = c + 1;
        }
        proof {
            assert(delayed@ =~= feedback_out(old(self)@));
        }
        let mut mixed: Vec<i64> = Vec::new();
        let mut c: usize = 0;
        while c < CHANNELS
            invariant
                0 <= c <= CHANNELS,
                delayed@.len() == CHANNELS,
                mixed@.len() == c,
                forall|i: int| 0 <= i < c ==> mixed@[i] == delayed@[i],
            decreases CHANNELS - c,
        {
            mixed.push(delayed[c]);
            c = c + 1;
        }
        proof {
            assert(mixed@ =~= delayed@);
        }
        householder_mix(&mut mixed);
        let mut c: usize = 0;
        while c < CHANNELS
            invariant
                0 <= c <= CHANNELS,
                input@.len() == CHANNELS,
                self.delays@.len() == CHANNELS,
                feedback_wf(old(self)@),
                self@.gain == old(self)@.gain,
                delayed@ == feedback_out(old(self)@),
                mixed@ == hh_apply(feedback_out(old(self)@)),
                forall|i: int| 0 <= i < CHANNELS ==> delay_wf(#[trigger] self@.delays[i]),
                forall|i: int|
                    c <= i < CHANNELS ==> #[trigger] self@.delays[i] == old(self)@.delays[i],
                forall|i: int|
                    0 <= i < c ==> #[trigger] self@.delays[i] == delay_step(
                        old(self)@.delays[i],
                        feedback_written(old(self)@, input@, i) as i64,
                    ),
            decreases CHANNELS - c,
        {
            let ghost pre = self@;
            let t = crate::sample::fp_mul(mixed[c], self.decay_gain);
            let w = crate::sample::sat_add(input[c], t);
            proof {
                assert(pre.delays[c as int] == self.delays@[c as int]@);
                assert(w as int == feedback_written(old(self)@, input@, c as int));
            }
            self.delays[c].write(w);
            proof {
                let ci = c as int;
                assert forall|i: int| 0 <= i < CHANNELS && i != ci implies #[trigger] self@.delays[i]
                    == pre.delays[i] by {
                    assert(self@.delays[i] == self.delays@[i]@);
                }
                assert(self@.delays[ci] == self.delays@[ci]@);
                assert(self@.delays[ci] == delay_step(
                    old(self)@.delays[ci],
                    feedback_written(old(self)@, input@, ci) as i64,
                ));
            }
            c = c + 1;
        }
        proof {
            assert(self@.delays =~= feedback_step(old(self)@, input@).delays);
            assert(self@ == feedback_step(old(self)@, input@));
        }
        delayed
    }
}

/// Replacing one sample of a buffer swaps its squared contribution in and
/// the old sample's out of the buffer's energy.
proof fn lemma_seq_energy_update(s: Seq<i64>, i: int, x: i64)
    requires
        0 <= i < s.len(),
    ensures
        seq_energy(s.update(i, x)) == seq_energy(s) - (s[i] as int) * (s[i] as int) + (x as int) * (
        x as int),
    decreases s.len(),
{
    let u = s.update(i, x);
    if i == s.len() - 1 {
        assert(u.drop_last() =~= s.drop_last());
    } else {
        assert(u.drop_last() =~= s.drop_last().update(i, x));
        lemma_seq_energy_update(s.drop_last(), i, x);
    }
}

/// A sample of no greater magnitude carries no more energy.
proof fn lemma_square_monotone(a: int, b: int)
    requires
        iabs(a) <= iabs(b),
    ensures
        a * a <= b * b,
{
    assert(a * a <= b * b) by (nonlinear_arith)
        requires
            (if a >= 0 {
                a
            } else {
                -a
            }) <= (if b >= 0 {
                b
            } else {
                -b
            }),
    ;
}

/// SILENCE IN, NO ENERGY GROWTH OUT: while the input is silent and the decay
/// gain lies in `[0, FP_ONE]` — including the stability boundary of exactly
/// one — a process step never increases the total energy stored in the
/// loop's delay lines, provided the stored samples are within the linear
/// range of the mix. The mix cannot add energy and the gain cannot amplify,
/// so the tail can only decay or, at the boundary, stay level.
pub proof fn lemma_feedback_energy_non_increasing(v: FeedbackView, input: Seq<i64>)
    requires
        feedback_wf(v),
        input.len() == CHANNELS,
        frame_zero(input),
        0 <= v.gain <= FP_ONE,
        feedback_bounded(v, LINEAR_LIMIT as int),
    ensures
        fb_energy(feedback_step(v, input)) <= fb_energy(v),
{
    let d = feedback_out(v);
    let m = hh_apply(d);
    assert forall|c: int| 0 <= c < CHANNELS implies iabs(d[c] as int) <= LINEAR_LIMIT as int by {
        assert(frame_bounded(v.delays[c].buf, LINEAR_LIMIT as int));
    }
    lemma_mix_never_adds_energy(d);
    let v2 = feedback_step(v, input);
    assert forall|c: int| 0 <= c < CHANNELS implies (feedback_written(v, input, c)) * (
    feedback_written(v, input, c)) <= (m[c] as int) * (m[c] as int) by {
        let p = fp_mul_spec(m[c] as int, v.gain as int);
        crate::sample::lemma_fp_mul_contracts(m[c] as int, v.gain as int);
        assert(input[c] == 0i64);
        assert(feedback_written(v, input, c) == sat64(p));
        crate::sample::lemma_sat64_contracts(p);
        lemma_square_monotone(feedback_written(v, input, c), m[c] as int);
    }
    assert forall|c: int| 0 <= c < CHANNELS implies seq_energy(v2.delays[c].buf) == seq_energy(
        v.delays[c].buf,
    ) - (d[c] as int) * (d[c] as int) + (feedback_written(v, input, c)) * (feedback_written(
        v,
        input,
        c,
    )) by {
        let w = feedback_written(v, input, c) as i64;
        assert(v2.delays[c] == delay_step(v.delays[c], w));
        crate::sample::lemma_sat64_contracts(
            input[c] + fp_mul_spec(hh_apply(feedback_out(v))[c] as int, v.gain as int),
        );
        assert(w as int == feedback_written(v, input, c));
        lemma_seq_energy_update(v.delays[c].buf, v.delays[c].cur, w);
        assert(v.delays[c].buf[v.delays[c].cur] == d[c]);
    }
    assert(energy8(m) <= energy8(d));
    assert(fb_energy(v2) <= fb_energy(v) - energy8(d) + energy8(m));
}

} // verus!
