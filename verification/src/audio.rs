//! Bounded, drop-oldest sample buffer shared between one capture producer
//! and any number of consumers, plus a fixed-gain batch transform.
//!
//! Samples are fixed-point signed integers. The buffer keeps at most
//! `capacity` samples; when an append would exceed the capacity, the
//! oldest samples are discarded so that the freshest audio is kept.
use vstd::prelude::*;

verus! {

use crate::numeric::trunc_div;
use crate::numeric::div_trunc;

/// Failures surfaced by the audio front-end, one variant per kind:
/// an external device failure, a failure in an active capability
/// session, a malformed or unsupported parameter, a frame of the wrong
/// length, and a call made before `initialize` or after `release`.
#[derive(Clone, Copy, Debug, PartialEq, Eq, Structural)]
pub enum AudioError {
    DeviceError,
    StreamError,
    FormatError,
    FrameLengthMismatch,
    UninitializedState,
}

/// The sequence left after appending `batch` to `s` and then discarding
/// the oldest values until at most `cap` remain.
pub open spec fn drop_oldest(s: Seq<i64>, cap: int) -> Seq<i64> {
    if s.len() <= cap {
        s
    } else {
        s.skip(s.len() - cap)
    }
}

/// Accumulated, not-yet-consumed microphone samples for one capture
/// session. `sample_rate` and `channels` are fixed at creation; the
/// sample sequence is bounded by `capacity` at every observation point.
pub struct AudioBuffer {
    sample_rate: u32,
    channels: u16,
    max_size: usize,
    buffer: Vec<i64>,
}

impl AudioBuffer {
    /// The stored sample sequence, oldest first.
    pub closed spec fn samples(&self) -> Seq<i64> {
        self.buffer@
    }

    /// The fixed maximum number of stored samples.
    pub closed spec fn capacity(&self) -> int {
        self.max_size as int
    }

    pub closed spec fn spec_sample_rate(&self) -> u32 {
        self.sample_rate
    }

    pub closed spec fn spec_channels(&self) -> u16 {
        self.channels
    }

    /// The buffer never holds more than `capacity` samples, and the
    /// capacity is positive.
    pub open spec fn wf(&self) -> bool {
        &&& self.capacity() >= 1
        &&& self.samples().len() <= self.capacity()
    }

    /// A fresh, empty buffer for one capture session.
    pub fn new(sample_rate: u32, channels: u16, max_size: usize) -> (b: AudioBuffer)
        requires
            sample_rate >= 1,
            channels >= 1,
            max_size >= 1,
        ensures
            b.wf(),
            b.samples() == Seq::<i64>::empty(),
            b.capacity() == max_size,
            b.spec_sample_rate() == sample_rate,
            b.spec_channels() == channels,
    {
        AudioBuffer { sample_rate, channels, max_size, buffer: Vec::new() }
    }

    /// Appends each value of `batch` in order; whenever the occupied
    /// count would exceed the capacity, the oldest sample is evicted.
    /// The dropped-oldest overflow is the documented backpressure
    /// policy, not an error, so the append itself never fails.
    pub fn add_samples(&mut self, batch: &Vec<i64>)
        requires
            old(self).wf(),
        ensures
            final(self).wf(),
            final(self).samples() == drop_oldest(
                old(self).samples() + batch@,
                old(self).capacity(),
            ),
            final(self).capacity() == old(self).capacity(),
            final(self).spec_sample_rate() == old(self).spec_sample_rate(),
            final(self).spec_channels() == old(self).spec_channels(),
    {
        let ghost start = self.buffer@;
        let ghost cap = self.max_size as int;
        let mut idx: usize = 0;
        while idx < batch.len()
            invariant
                self.wf(),
                idx <= batch.len(),
                self.max_size as int == cap,
                self.sample_rate == old(self).sample_rate,
                self.channels == old(self).channels,
                self.buffer@ == drop_oldest(start + batch@.take(idx as int), cap),
            decreases batch.len() - idx,
        {
            let ghost before = self.buffer@;
            self.buffer.push(batch[idx]);
            if self.buffer.len() > self.max_size {
                self.buffer.remove(0);
                assert(self.buffer@ == before.push(batch@[idx as int]).skip(1));
            }
            proof {
                let joined = start + batch@.take(idx as int + 1);
                assert(batch@.take(idx as int + 1)
                    == batch@.take(idx as int).push(batch@[idx as int]));
                assert(joined == (start + batch@.take(idx as int)).push(batch@[idx as int]));
                lemma_drop_oldest_push(start + batch@.take(idx as int), batch@[idx as int], cap);
            }
            idx = idx + 1;
        }
        proof {
            assert(batch@.take(batch@.len() as int) == batch@);
        }
    }

    /// Returns up to `min(count, length)` samples, oldest first, without
    /// removing them; an empty buffer yields an empty sequence.
    pub fn get_samples(&self, count: usize) -> (r: Vec<i64>)
        ensures
            r@ == self.samples().take(spec_min(count as int, self.samples().len() as int)),
    {
        let actual: usize = if count <= self.buffer.len() {
            count
        } else {
            self.buffer.len()
        };
        let mut out: Vec<i64> = Vec::new();
        let mut idx: usize = 0;
        while idx < actual
            invariant
                idx <= actual,
                actual == spec_min(count as int, self.buffer@.len() as int),
                out@ == self.buffer@.take(idx as int),
            decreases actual - idx,
        {
            out.push(self.buffer[idx]);
            proof {
                assert(self.buffer@.take(idx as int + 1)
                    == self.buffer@.take(idx as int).push(self.buffer@[idx as int]));
            }
            idx = idx + 1;
        }
        out
    }

    /// Empties the sample sequence. The session owning this buffer is
    /// expected to reset the filter state bound to it as well (see the
    /// filter stages' `reset`).
    pub fn clear(&mut self)
        requires
            old(self).wf(),
        ensures
            final(self).wf(),
            final(self).samples() == Seq::<i64>::empty(),
            final(self).capacity() == old(self).capacity(),
            final(self).spec_sample_rate() == old(self).spec_sample_rate(),
            final(self).spec_channels() == old(self).spec_channels(),
    {
        self.buffer.clear();
    }

    /// The current occupied count, between `0` and `capacity`.
    pub fn len(&self) -> (n: usize)
        ensures
            n == self.samples().len(),
    {
        self.buffer.len()
    }

    /// The sample rate fixed at creation.
    pub fn sample_rate(&self) -> (r: u32)
        ensures
            r == self.spec_sample_rate(),
    {
        self.sample_rate
    }

    /// The channel count fixed at creation.
    pub fn channels(&self) -> (r: u16)
        ensures
            r == self.spec_channels(),
    {
        self.channels
    }
}

pub open spec fn spec_min(a: int, b: int) -> int {
    if a <= b {
        a
    } else {
        b
    }
}

/// Appending one value and re-trimming equals trimming the appended
/// sequence directly: the inductive step of the drop-oldest policy.
proof fn lemma_drop_oldest_push(s: Seq<i64>, x: i64, cap: int)
    requires
        cap >= 1,
    ensures
        drop_oldest(s.push(x), cap) == drop_oldest(drop_oldest(s, cap).push(x), cap),
{
    let t = drop_oldest(s, cap);
    if s.len() <= cap {
        assert(t == s);
    } else {
        assert(t == s.skip(s.len() - cap));
        assert(t.len() == cap);
        assert(t.push(x).len() == cap + 1);
        assert(drop_oldest(t.push(x), cap) == t.push(x).skip(1));
        assert(drop_oldest(s.push(x), cap) == s.push(x).skip(s.len() + 1 - cap));
        assert(t.push(x).skip(1) =~= s.push(x).skip(s.len() + 1 - cap));
    }
    if s.len() == cap {
        assert(drop_oldest(s.push(x), cap) == s.push(x).skip(1));
        assert(t.push(x).skip(1) =~= s.push(x).skip(1));
    }
}

/// Reading the buffer is deterministic in its state: two reads with the
/// same requested count, with no mutation between them, yield the same
/// sequence.
pub proof fn lemma_get_samples_repeatable(b: AudioBuffer, count: int, r1: Seq<i64>, r2: Seq<i64>)
    requires
        r1 == b.samples().take(spec_min(count, b.samples().len() as int)),
        r2 == b.samples().take(spec_min(count, b.samples().len() as int)),
    ensures
        r1 == r2,
{
}

/// The fixed gain applied by the batch transform, as a ratio.
pub const GAIN_NUM: i64 = 6;

pub const GAIN_DEN: i64 = 5;

/// Largest input magnitude for which the scaled sample still fits:
/// `i64::MAX / GAIN_NUM`, rounded down.
pub const GAIN_INPUT_LIMIT: i64 = 1537228672809129301;

/// Scales every sample by the fixed gain `GAIN_NUM / GAIN_DEN`
/// (rounding toward zero), the batch loudness transform applied to
/// captured audio before analysis.
pub fn process_audio_buffer(input: &Vec<i64>) -> (out: Vec<i64>)
    requires
        forall|i: int| 0 <= i < input@.len()
            ==> -GAIN_INPUT_LIMIT <= #[trigger] input@[i] <= GAIN_INPUT_LIMIT,
    ensures
        out@.len() == input@.len(),
        forall|i: int| 0 <= i < out@.len()
            ==> out@[i] == trunc_div(GAIN_NUM * input@[i], GAIN_DEN as int),
{
    let mut out: Vec<i64> = Vec::new();
    let mut idx: usize = 0;
    while idx < input.len()
        invariant
            idx <= input@.len(),
            out@.len() == idx,
            forall|i: int| 0 <= i < input@.len()
                ==> -GAIN_INPUT_LIMIT <= #[trigger] input@[i] <= GAIN_INPUT_LIMIT,
            forall|i: int| 0 <= i < idx
                ==> out@[i] == trunc_div(GAIN_NUM * input@[i], GAIN_DEN as int),
        decreases input@.len() - idx,
    {
        let x: i64 = input[idx];
        let scaled: i64 = GAIN_NUM * x;
        out.push(div_trunc(scaled, GAIN_DEN as u64));
        idx = idx + 1;
    }
    out
}

} // verus!
