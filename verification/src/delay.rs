//! The per-channel delay primitive: a fixed-capacity circular buffer giving a
//! pure integer-sample delay. One process step is a read (the sample written
//! `length` steps ago, or silence before the buffer has filled once) followed
//! by a write at the same cursor slot, after which the cursor advances modulo
//! the buffer length.

use vstd::arithmetic::div_mod::lemma_mod_sub_multiples_vanish;
use vstd::prelude::*;

verus! {

/// The mathematical value of a delay line: its buffer contents and cursor.
pub ghost struct DelayView {
    pub buf: Seq<i64>,
    pub cur: int,
}

/// Well-formedness of a delay line: a non-empty buffer and a cursor inside it.
pub open spec fn delay_wf(v: DelayView) -> bool {
    &&& v.buf.len() >= 1
    &&& 0 <= v.cur < v.buf.len()
}

/// A freshly constructed delay line: `len` slots of silence, cursor at 0.
pub open spec fn delay_zero(len: nat) -> DelayView {
    DelayView { buf: Seq::new(len, |i: int| 0i64), cur: 0 }
}

/// What one `read` observes: the sample at the cursor slot.
pub open spec fn delay_out(v: DelayView) -> i64 {
    v.buf[v.cur]
}

/// What one `write` does: store at the cursor slot, advance the cursor
/// modulo the buffer length.
pub open spec fn delay_step(v: DelayView, x: i64) -> DelayView {
    DelayView { buf: v.buf.update(v.cur, x), cur: (v.cur + 1) % (v.buf.len() as int) }
}

/// The state after feeding the first `k` samples of `xs` through a length-`len`
/// delay line, one read-then-write step per sample.
pub open spec fn delay_run(len: nat, xs: Seq<i64>, k: nat) -> DelayView
    decreases k,
{
    if k == 0 {
        delay_zero(len)
    } else {
        delay_step(delay_run(len, xs, (k - 1) as nat), xs[k - 1])
    }
}

/// A fixed-capacity circular buffer implementing a delay of exactly
/// `buffer.len()` process steps.
pub struct Delay {
    buffer: Vec<i64>,
    cursor: usize,
}

impl View for Delay {
    type V = DelayView;

    closed spec fn view(&self) -> DelayView {
        DelayView { buf: self.buffer@, cur: self.cursor as int }
    }
}

impl Delay {
    /// Allocate `length` slots of silence with the cursor at slot 0.
    pub fn new(length: usize) -> (d: Delay)
        requires
            length >= 1,
        ensures
            d@ == delay_zero(length as nat),
            delay_wf(d@),
    {
        let d = Delay { buffer: vec![0i64; length], cursor: 0 };
        proof {
            assert(d@.buf =~= delay_zero(length as nat).buf);
        }
        d
    }

    /// The number of steps by which this line delays its input.
    pub fn length(&self) -> (r: usize)
        ensures
            r == self@.buf.len(),
    {
        self.buffer.len()
    }

    /// Return the sample at the cursor: the value written `length` calls ago,
    /// or silence before the buffer has been filled once. Mutates nothing.
    pub fn read(&self) -> (r: i64)
        requires
            delay_wf(self@),
        ensures
            r == delay_out(self@),
    {
        self.buffer[self.cursor]
    }

    /// Store `sample` at the cursor and advance the cursor modulo the buffer
    /// length: exactly one `delay_step` of the model.
    pub fn write(&mut self, sample: i64)
        requires
            delay_wf(old(self)@),
        ensures
            final(self)@ == delay_step(old(self)@, sample),
            delay_wf(final(self)@),
    {
        let len = self.buffer.len();
        self.buffer[self.cursor] = sample;
        self.cursor = (self.cursor + 1) % len;
    }
}

/// After `k` steps the cursor sits at `k % len` and the buffer length is
/// unchanged.
proof fn lemma_run_shape(len: nat, xs: Seq<i64>, k: nat)
    requires
        len >= 1,
    ensures
        delay_run(len, xs, k).buf.len() == len,
        delay_run(len, xs, k).cur == (k as int) % (len as int),
    decreases k,
{
    if k == 0 {
        vstd::arithmetic::div_mod::lemma_small_mod(0, len);
    } else {
        lemma_run_shape(len, xs, (k - 1) as nat);
        let l = len as int;
        let c = ((k - 1) as int) % l;
        vstd::arithmetic::div_mod::lemma_mod_bound((k - 1) as int, l);
        vstd::arithmetic::div_mod::lemma_add_mod_noop_right(1, (k - 1) as int, l);
        assert((1 + c) % l == (k as int) % l);
        if c + 1 < l {
            vstd::arithmetic::div_mod::lemma_small_mod((c + 1) as nat, len);
        } else {
            vstd::arithmetic::div_mod::lemma_mod_self_0(l);
        }
    }
}

/// Unwinding: steps whose write lands in other slots leave slot `j` alone.
proof fn lemma_slot_stable(len: nat, xs: Seq<i64>, m: nat, k: nat, j: int)
    requires
        len >= 1,
        m <= k,
        0 <= j < len,
        forall|i: nat| m <= i < k ==> #[trigger] ((i as int) % (len as int)) != j,
    ensures
        delay_run(len, xs, k).buf[j] == delay_run(len, xs, m).buf[j],
    decreases k - m,
{
    if k > m {
        lemma_slot_stable(len, xs, m, (k - 1) as nat, j);
        lemma_run_shape(len, xs, (k - 1) as nat);
        assert(((k - 1) as int) % (len as int) != j);
    }
}

/// Causality of the delay line (the defining law of the primitive): feeding
/// samples `xs` one read-then-write step at a time through a line of length
/// `len`, the value read at step `k` is exactly the sample written at step
/// `k - len` — and silence while `k < len`, before the buffer has filled once.
pub proof fn lemma_delay_causality(len: nat, xs: Seq<i64>, k: nat)
    requires
        len >= 1,
        k < xs.len(),
    ensures
        k >= len ==> delay_out(delay_run(len, xs, k)) == xs[k - len],
        k < len ==> delay_out(delay_run(len, xs, k)) == 0i64,
{
    lemma_run_shape(len, xs, k);
    let l = len as int;
    let j = (k as int) % l;
    if k >= len {
        // Step k - len wrote xs[k - len] into slot j; steps strictly between
        // k - len and k hit other slots, so the read at step k sees it still.
        let m = (k - len + 1) as nat;
        lemma_run_shape(len, xs, (m - 1) as nat);
        lemma_mod_sub_multiples_vanish(k as int, l);
        assert((k as int - l) % l == j);
        assert forall|i: nat| m <= i < k implies #[trigger] ((i as int) % l) != j by {
            if (i as int) % l == j {
                lemma_mod_sub_multiples_vanish(k as int, l);
                lemma_mod_sub_multiples_vanish(i as int, l);
                // Both i and k - len lie in a window shorter than len, yet
                // would have to differ by a positive multiple of len.
                let a = i as int - (k as int - l);
                assert(0 < a < l);
                assert(a % l == 0) by {
                    vstd::arithmetic::div_mod::lemma_sub_mod_noop(i as int, k as int - l, l);
                    vstd::arithmetic::div_mod::lemma_small_mod(0, len);
                };
                vstd::arithmetic::div_mod::lemma_small_mod(a as nat, len);
                assert(false);
            }
        };
        lemma_slot_stable(len, xs, m, k, j);
        assert(delay_run(len, xs, m) == delay_step(
            delay_run(len, xs, (m - 1) as nat),
            xs[m - 1],
        ));
        assert(delay_run(len, xs, m).buf[j] == xs[k - len]);
    } else {
        // No step below k writes to slot j = k: step i writes slot i < k.
        assert forall|i: nat| 0 <= i < k implies #[trigger] ((i as int) % l) != j by {
            vstd::arithmetic::div_mod::lemma_small_mod(i, len);
            vstd::arithmetic::div_mod::lemma_small_mod(k, len);
        };
        lemma_slot_stable(len, xs, 0, k, j);
        vstd::arithmetic::div_mod::lemma_small_mod(k, len);
    }
}

} // verus!
