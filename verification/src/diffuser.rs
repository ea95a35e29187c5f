//! The diffusion stage: one delay line per channel, with lengths staggered as
//! distinct fractions of the room size, applied once per frame to smear a
//! sharp transient into uncorrelated micro-echoes before it reaches the
//! resonant feedback loop. Each process step runs every channel's delay line
//! once: read the delayed sample (the output), then write the input sample.

use crate::delay::{delay_out, delay_step, delay_wf, delay_zero, Delay, DelayView};
use crate::sample::CHANNELS;
use crate::tuning::{diffuser_len_spec, MAX_ROOM_MS_FP, MAX_SAMPLE_RATE};
use vstd::prelude::*;

verus! {

/// Well-formedness: one well-formed delay line per channel.
pub open spec fn diffuser_wf(v: Seq<DelayView>) -> bool {
    &&& v.len() == CHANNELS
    &&& forall|c: int| 0 <= c < CHANNELS ==> delay_wf(#[trigger] v[c])
}

/// The frame a process step returns: every channel's delayed sample, as it
/// stands before the step's writes.
pub open spec fn diffuser_out(v: Seq<DelayView>) -> Seq<i64> {
    Seq::new(CHANNELS as nat, |c: int| delay_out(v[c]))
}

/// The state after one process step: every channel's line stepped with its
/// channel of the input frame.
pub open spec fn diffuser_step(v: Seq<DelayView>, input: Seq<i64>) -> Seq<DelayView> {
    Seq::new(CHANNELS as nat, |c: int| delay_step(v[c], input[c]))
}

/// A bank of `CHANNELS` delay lines with staggered lengths.
pub struct Diffuser {
    delays: Vec<Delay>,
}

impl View for Diffuser {
    type V = Seq<DelayView>;

    closed spec fn view(&self) -> Seq<DelayView> {
        Seq::new(self.delays@.len(), |c: int| self.delays@[c]@)
    }
}

impl Diffuser {
    /// Build the bank from the room size (Q30 milliseconds) and sample rate:
    /// channel `c` gets a silent line of `diffuser_len_spec` samples.
    pub fn new(room_size_ms: i64, sample_rate: u32) -> (d: Diffuser)
        requires
            0 <= room_size_ms <= MAX_ROOM_MS_FP,
            sample_rate <= MAX_SAMPLE_RATE,
        ensures
            diffuser_wf(d@),
            forall|c: int|
                0 <= c < CHANNELS ==> #[trigger] d@[c] == delay_zero(
                    diffuser_len_spec(room_size_ms as int, sample_rate as int, c) as nat,
                ),
    {
        let mut delays: Vec<Delay> = Vec::new();
        let mut c: usize = 0;
        while c < CHANNELS
            invariant
                0 <= c <= CHANNELS,
                delays@.len() == c,
                0 <= room_size_ms <= MAX_ROOM_MS_FP,
                sample_rate <= MAX_SAMPLE_RATE,
                forall|i: int|
                    0 <= i < c ==> delay_wf(#[trigger] delays@[i]@) && delays@[i]@ == delay_zero(
                        diffuser_len_spec(room_size_ms as int, sample_rate as int, i) as nat,
                    ),
            decreases CHANNELS - c,
        {
            let n = crate::tuning::diffuser_delay_len(room_size_ms, sample_rate, c);
            delays.push(Delay::new(n));
            c = c + 1;
        }
        Diffuser { delays }
    }

    /// Run every channel's delay line once: the returned frame holds the
    /// delayed samples (the micro-echoes), and the input frame replaces them
    /// in the lines.
    pub fn process(&mut self, input: &Vec<i64>) -> (out: Vec<i64>)
        requires
            diffuser_wf(old(self)@),
            input@.len() == CHANNELS,
        ensures
            out@ == diffuser_out(old(self)@),
            final(self)@ == diffuser_step(old(self)@, input@),
            diffuser_wf(final(self)@),
    {
        let mut out: Vec<i64> = Vec::new();
        let mut c: usize = 0;
        while c < CHANNELS
            invariant
                0 <= c <= CHANNELS,
                input@.len() == CHANNELS,
                self.delays@.len() == CHANNELS,
                diffuser_wf(old(self)@),
                out@.len() == c,
                forall|i: int| 0 <= i < CHANNELS ==> delay_wf(#[trigger] self@[i]),
                forall|i: int| c <= i < CHANNELS ==> #[trigger] self@[i] == old(self)@[i],
                forall|i: int|
                    0 <= i < c ==> #[trigger] self@[i] == delay_step(old(self)@[i], input@[i]),
                forall|i: int| 0 <= i < c ==> out@[i] == delay_out(#[trigger] old(self)@[i]),
            decreases CHANNELS - c,
        {
            let ghost pre = self@;
            proof {
                assert(pre[c as int] == self.delays@[c as int]@);
                assert(delay_wf(self.delays@[c as int]@));
            }
            let v = self.delays[c].read();
            out.push(v);
            self.delays[c].write(input[c]);
            proof {
                let ci = c as int;
                assert forall|i: int| 0 <= i < CHANNELS && i != ci implies #[trigger] self@[i]
                    == pre[i] by {
                    assert(self@[i] == self.delays@[i]@);
                }
                assert(self@[ci] == self.delays@[ci]@);
                assert(self@[ci] == delay_step(pre[ci], input@[ci]));
                assert(delay_wf(self@[ci]));
            }
            c = c + 1;
        }
        proof {
            assert(out@ =~= diffuser_out(old(self)@));
            assert(self@ =~= diffuser_step(old(self)@, input@));
        }
        out
    }
}

} // verus!
