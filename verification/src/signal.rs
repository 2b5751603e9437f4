//! Spectral analysis and a bank of first-order streaming filters.
//!
//! All four filters are built from one first-order recurrence over
//! fixed-point integer samples. The smoothing coefficient `alpha` is a
//! per-mille value derived from the cutoff frequency by a one-pole RC
//! approximation: `alpha = 2*pi*fc / (2*pi*fc + fs)`, scaled by 1000.
use rustfft::FftPlanner;
use rustfft::num_complex::Complex32;
use vstd::prelude::*;

verus! {

use vstd::arithmetic::div_mod::lemma_div_pos_is_pos;
use vstd::arithmetic::div_mod::lemma_div_is_ordered;
use vstd::arithmetic::div_mod::lemma_div_multiples_vanish;
use vstd::arithmetic::div_mod::lemma_multiply_divide_lt;
use crate::numeric::trunc_div;
use crate::numeric::bounded_by;
use crate::numeric::div_trunc;
use crate::numeric::lemma_trunc_div_mag;

/// The fixed-point scale of the smoothing coefficient: an `alpha` of
/// `ALPHA_SCALE` would be 1.0.
pub const ALPHA_SCALE: i64 = 1000;

/// Magnitude bound on the samples handed to the filters (the
/// fixed-point image of the unit-normalized capture domain).
pub const SAMPLE_LIMIT: i64 = 0x1_0000_0000;

/// Magnitude bound that every filter output respects:
/// `2 * ALPHA_SCALE * SAMPLE_LIMIT`.
pub const VALUE_LIMIT: i64 = 8589934592000;

/// The capture rate assumed by the one-shot filter operations, in Hz.
pub const NOMINAL_SAMPLE_RATE: u32 = 16000;

/// The view of a sample vector as a sequence of unbounded integers.
pub open spec fn ints_of(s: Seq<i64>) -> Seq<int> {
    Seq::new(s.len(), |i: int| s[i] as int)
}

/// The smoothing coefficient, in per-mille, that the one-pole RC
/// approximation derives from a cutoff frequency and a sample rate,
/// clamped away from zero so every filter keeps moving.
pub open spec fn alpha_of(cutoff: int, sample_rate: int) -> int {
    let num = 6283 * cutoff;
    let raw = (1000 * num) / (num + 1000 * sample_rate);
    if raw == 0 {
        1
    } else {
        raw
    }
}

/// Derives the per-mille smoothing coefficient from a cutoff frequency,
/// by the one-pole RC approximation `alpha = 2*pi*fc / (2*pi*fc + fs)`
/// (with `2*pi` as 6283/1000). The supplied `Q` factor does not enter:
/// a first-order stage has no bandwidth-sharpness parameter.
pub fn alpha_permille(cutoff: u32, sample_rate: u32) -> (a: i64)
    requires
        sample_rate >= 1,
    ensures
        a == alpha_of(cutoff as int, sample_rate as int),
        1 <= a < ALPHA_SCALE,
{
    let num: u64 = 6283 * (cutoff as u64);
    let den: u64 = num + 1000 * (sample_rate as u64);
    let raw: u64 = (1000 * num) / den;
    proof {
        lemma_multiply_divide_lt(1000 * num as int, den as int, 1000);
    }
    if raw == 0 {
        1
    } else {
        raw as i64
    }
}

/// One step of the first-order lowpass recurrence:
/// `out = prev + alpha * (x - prev)`, in fixed point.
pub open spec fn lowpass_step(prev: int, x: int, alpha: int) -> int {
    prev + trunc_div(alpha * (x - prev), ALPHA_SCALE as int)
}

/// One step of the first-order highpass recurrence:
/// `out = alpha * (prev_out + x - prev_in)`, in fixed point.
pub open spec fn highpass_step(prev_out: int, prev_in: int, x: int, alpha: int) -> int {
    trunc_div(alpha * (prev_out + x - prev_in), ALPHA_SCALE as int)
}

/// The lowpass output at index `i` for input `s`: the first sample is
/// passed through, every later output follows the recurrence.
pub open spec fn lowpass_at(s: Seq<int>, alpha: int, i: int) -> int
    decreases i,
{
    if i <= 0 {
        s[0]
    } else {
        lowpass_step(lowpass_at(s, alpha, i - 1), s[i], alpha)
    }
}

/// The whole lowpass output sequence.
pub open spec fn lowpass_seq(s: Seq<int>, alpha: int) -> Seq<int> {
    Seq::new(s.len(), |i: int| lowpass_at(s, alpha, i))
}

/// The highpass output at index `i` for input `s`.
pub open spec fn highpass_at(s: Seq<int>, alpha: int, i: int) -> int
    decreases i,
{
    if i <= 0 {
        s[0]
    } else {
        highpass_step(highpass_at(s, alpha, i - 1), s[i - 1], s[i], alpha)
    }
}

/// The whole highpass output sequence.
pub open spec fn highpass_seq(s: Seq<int>, alpha: int) -> Seq<int> {
    Seq::new(s.len(), |i: int| highpass_at(s, alpha, i))
}

/// Bandpass is the two-stage cascade: highpass at the low cutoff, then
/// lowpass at the high cutoff.
pub open spec fn bandpass_seq(s: Seq<int>, alpha_low: int, alpha_high: int) -> Seq<int> {
    lowpass_seq(highpass_seq(s, alpha_low), alpha_high)
}

/// Notch is the input minus the bandpassed signal, elementwise.
pub open spec fn notch_seq(s: Seq<int>, alpha_low: int, alpha_high: int) -> Seq<int> {
    Seq::new(s.len(), |i: int| s[i] - bandpass_seq(s, alpha_low, alpha_high)[i])
}

/// Scaling a difference by `alpha / ALPHA_SCALE` (with `alpha` at most
/// the scale) keeps the result between zero and the difference.
proof fn lemma_scale_within(d: int, alpha: int)
    requires
        0 <= alpha <= ALPHA_SCALE as int,
    ensures
        d >= 0 ==> 0 <= trunc_div(alpha * d, ALPHA_SCALE as int) <= d,
        d < 0 ==> d <= trunc_div(alpha * d, ALPHA_SCALE as int) <= 0,
{
    let s = ALPHA_SCALE as int;
    if d >= 0 {
        assert(0 <= alpha * d && alpha * d <= s * d) by (nonlinear_arith)
            requires 0 <= alpha <= s, d >= 0,
        ;
        lemma_div_pos_is_pos(alpha * d, s);
        lemma_div_is_ordered(alpha * d, s * d, s);
        lemma_div_multiples_vanish(d, s);
    } else {
        let nd = -d;
        assert(0 <= alpha * nd && alpha * nd <= s * nd) by (nonlinear_arith)
            requires 0 <= alpha <= s, nd >= 0,
        ;
        assert(alpha * nd == -(alpha * d)) by (nonlinear_arith)
            requires nd == -d,
        ;
        lemma_div_pos_is_pos(alpha * nd, s);
        lemma_div_is_ordered(alpha * nd, s * nd, s);
        lemma_div_multiples_vanish(nd, s);
    }
}

/// One lowpass step stays within the closed interval spanned by the
/// previous output and the new input.
proof fn lemma_lowpass_step_in_hull(prev: int, x: int, alpha: int)
    requires
        0 <= alpha <= ALPHA_SCALE as int,
    ensures
        prev <= x ==> prev <= lowpass_step(prev, x, alpha) <= x,
        x <= prev ==> x <= lowpass_step(prev, x, alpha) <= prev,
{
    lemma_scale_within(x - prev, alpha);
}

/// Runs the lowpass recurrence over a whole buffer with a fixed
/// coefficient. Outputs stay within the filters' working range.
fn lowpass_run(buffer: &Vec<i64>, alpha: i64) -> (out: Vec<i64>)
    requires
        1 <= alpha < ALPHA_SCALE,
        bounded_by(buffer@, VALUE_LIMIT as int),
    ensures
        out@.len() == buffer@.len(),
        ints_of(out@) == lowpass_seq(ints_of(buffer@), alpha as int),
        bounded_by(out@, VALUE_LIMIT as int),
{
    let ghost s = ints_of(buffer@);
    let mut out: Vec<i64> = Vec::new();
    if buffer.len() == 0 {
        proof {
            assert(ints_of(out@) =~= lowpass_seq(s, alpha as int));
        }
        return out;
    }
    let mut prev: i64 = buffer[0];
    out.push(prev);
    let mut idx: usize = 1;
    while idx < buffer.len()
        invariant
            1 <= idx <= buffer@.len(),
            s == ints_of(buffer@),
            1 <= alpha < ALPHA_SCALE,
            bounded_by(buffer@, VALUE_LIMIT as int),
            out@.len() == idx,
            prev == out@[idx - 1],
            forall|i: int| 0 <= i < idx ==> #[trigger] out@[i] == lowpass_at(s, alpha as int, i),
            bounded_by(out@, VALUE_LIMIT as int),
        decreases buffer@.len() - idx,
    {
        let x: i64 = buffer[idx];
        let delta: i64 = x - prev;
        proof {
            assert(-999 * (2 * VALUE_LIMIT as int) <= alpha * (delta as int)
                <= 999 * (2 * VALUE_LIMIT as int)) by (nonlinear_arith)
                requires
                    1 <= alpha < 1000,
                    -2 * VALUE_LIMIT as int <= delta as int <= 2 * VALUE_LIMIT as int,
            ;
        }
        let scaled: i64 = alpha * delta;
        let inc: i64 = div_trunc(scaled, 1000);
        proof {
            lemma_lowpass_step_in_hull(prev as int, x as int, alpha as int);
        }
        let next: i64 = prev + inc;
        out.push(next);
        prev = next;
        idx = idx + 1;
    }
    proof {
        assert(ints_of(out@) =~= lowpass_seq(s, alpha as int));
    }
    out
}

/// Runs the highpass recurrence over a whole buffer with a fixed
/// coefficient. Inputs must lie in the sample range; outputs stay
/// within the filters' working range.
fn highpass_run(buffer: &Vec<i64>, alpha: i64) -> (out: Vec<i64>)
    requires
        1 <= alpha < ALPHA_SCALE,
        bounded_by(buffer@, SAMPLE_LIMIT as int),
    ensures
        out@.len() == buffer@.len(),
        ints_of(out@) == highpass_seq(ints_of(buffer@), alpha as int),
        bounded_by(out@, VALUE_LIMIT as int),
{
    let ghost s = ints_of(buffer@);
    let mut out: Vec<i64> = Vec::new();
    if buffer.len() == 0 {
        proof {
            assert(ints_of(out@) =~= highpass_seq(s, alpha as int));
        }
        return out;
    }
    let mut prev_out: i64 = buffer[0];
    let mut prev_in: i64 = buffer[0];
    out.push(prev_out);
    let mut idx: usize = 1;
    while idx < buffer.len()
        invariant
            1 <= idx <= buffer@.len(),
            s == ints_of(buffer@),
            1 <= alpha < ALPHA_SCALE,
            bounded_by(buffer@, SAMPLE_LIMIT as int),
            out@.len() == idx,
            prev_out == out@[idx - 1],
            prev_in == buffer@[idx - 1],
            -VALUE_LIMIT <= prev_out <= VALUE_LIMIT,
            forall|i: int| 0 <= i < idx ==> #[trigger] out@[i] == highpass_at(s, alpha as int, i),
            bounded_by(out@, VALUE_LIMIT as int),
        decreases buffer@.len() - idx,
    {
        let x: i64 = buffer[idx];
        let inner: i64 = prev_out + x - prev_in;
        proof {
            assert(-999 * (VALUE_LIMIT as int + 2 * SAMPLE_LIMIT as int) <= alpha * (inner as int)
                <= 999 * (VALUE_LIMIT as int + 2 * SAMPLE_LIMIT as int)) by (nonlinear_arith)
                requires
                    1 <= alpha < 1000,
                    -(VALUE_LIMIT as int + 2 * SAMPLE_LIMIT as int) <= inner as int
                        <= VALUE_LIMIT as int + 2 * SAMPLE_LIMIT as int,
            ;
        }
        let scaled: i64 = alpha * inner;
        let next: i64 = div_trunc(scaled, 1000);
        proof {
            lemma_trunc_div_mag(
                scaled as int,
                ALPHA_SCALE as int,
                999 * (VALUE_LIMIT as int + 2 * SAMPLE_LIMIT as int),
            );
        }
        out.push(next);
        prev_out = next;
        prev_in = x;
        idx = idx + 1;
    }
    proof {
        assert(ints_of(out@) =~= highpass_seq(s, alpha as int));
    }
    out
}

/// A first-order lowpass pass over `buffer` with the coefficient
/// derived from `cutoff` at the nominal capture rate. The `Q` factor is
/// accepted for interface compatibility; a first-order stage ignores it.
pub fn apply_lowpass_filter(buffer: &Vec<i64>, cutoff: u32, _q: u32) -> (out: Vec<i64>)
    requires
        bounded_by(buffer@, SAMPLE_LIMIT as int),
    ensures
        out@.len() == buffer@.len(),
        ints_of(out@) == lowpass_seq(
            ints_of(buffer@),
            alpha_of(cutoff as int, NOMINAL_SAMPLE_RATE as int),
        ),
        bounded_by(out@, VALUE_LIMIT as int),
{
    let alpha = alpha_permille(cutoff, NOMINAL_SAMPLE_RATE);
    lowpass_run(buffer, alpha)
}

/// A first-order highpass pass over `buffer` with the coefficient
/// derived from `cutoff` at the nominal capture rate.
pub fn apply_highpass_filter(buffer: &Vec<i64>, cutoff: u32, _q: u32) -> (out: Vec<i64>)
    requires
        bounded_by(buffer@, SAMPLE_LIMIT as int),
    ensures
        out@.len() == buffer@.len(),
        ints_of(out@) == highpass_seq(
            ints_of(buffer@),
            alpha_of(cutoff as int, NOMINAL_SAMPLE_RATE as int),
        ),
        bounded_by(out@, VALUE_LIMIT as int),
{
    let alpha = alpha_permille(cutoff, NOMINAL_SAMPLE_RATE);
    highpass_run(buffer, alpha)
}

/// The bandpass cascade: highpass at `low_cutoff`, then lowpass at
/// `high_cutoff`, each stage with its own state.
pub fn apply_bandpass_filter(buffer: &Vec<i64>, low_cutoff: u32, high_cutoff: u32, _q: u32) -> (out:
    Vec<i64>)
    requires
        bounded_by(buffer@, SAMPLE_LIMIT as int),
    ensures
        out@.len() == buffer@.len(),
        ints_of(out@) == bandpass_seq(
            ints_of(buffer@),
            alpha_of(low_cutoff as int, NOMINAL_SAMPLE_RATE as int),
            alpha_of(high_cutoff as int, NOMINAL_SAMPLE_RATE as int),
        ),
        bounded_by(out@, VALUE_LIMIT as int),
{
    let alpha_low = alpha_permille(low_cutoff, NOMINAL_SAMPLE_RATE);
    let alpha_high = alpha_permille(high_cutoff, NOMINAL_SAMPLE_RATE);
    let highpassed = highpass_run(buffer, alpha_low);
    lowpass_run(&highpassed, alpha_high)
}

/// The notch filter: the input minus its bandpassed signal, so that
/// `bandpassed[i] + notched[i] == input[i]` at every index, exactly.
pub fn apply_notch_filter(buffer: &Vec<i64>, low_cutoff: u32, high_cutoff: u32, _q: u32) -> (out:
    Vec<i64>)
    requires
        bounded_by(buffer@, SAMPLE_LIMIT as int),
    ensures
        out@.len() == buffer@.len(),
        ints_of(out@) == notch_seq(
            ints_of(buffer@),
            alpha_of(low_cutoff as int, NOMINAL_SAMPLE_RATE as int),
            alpha_of(high_cutoff as int, NOMINAL_SAMPLE_RATE as int),
        ),
{
    let ghost s = ints_of(buffer@);
    let ghost a_low = alpha_of(low_cutoff as int, NOMINAL_SAMPLE_RATE as int);
    let ghost a_high = alpha_of(high_cutoff as int, NOMINAL_SAMPLE_RATE as int);
    let bandpassed = apply_bandpass_filter(buffer, low_cutoff, high_cutoff, _q);
    let mut out: Vec<i64> = Vec::new();
    let mut idx: usize = 0;
    while idx < buffer.len()
        invariant
            idx <= buffer@.len(),
            bandpassed@.len() == buffer@.len(),
            s == ints_of(buffer@),
            bounded_by(buffer@, SAMPLE_LIMIT as int),
            bounded_by(bandpassed@, VALUE_LIMIT as int),
            ints_of(bandpassed@) == bandpass_seq(s, a_low, a_high),
            out@.len() == idx,
            forall|i: int| 0 <= i < idx ==> #[trigger] out@[i] == notch_seq(s, a_low, a_high)[i],
        decreases buffer@.len() - idx,
    {
        let diff: i64 = buffer[idx] - bandpassed[idx];
        proof {
            assert(bandpassed@[idx as int] as int == bandpass_seq(s, a_low, a_high)[idx as int]);
        }
        out.push(diff);
        idx = idx + 1;
    }
    proof {
        assert(ints_of(out@) =~= notch_seq(s, a_low, a_high));
    }
    out
}

/// At every index the bandpassed and notched signals sum back to the
/// input, exactly: the complement invariant of the filter bank.
pub proof fn lemma_notch_bandpass_complement(s: Seq<int>, alpha_low: int, alpha_high: int, i: int)
    requires
        0 <= i < s.len(),
    ensures
        bandpass_seq(s, alpha_low, alpha_high)[i] + notch_seq(s, alpha_low, alpha_high)[i] == s[i],
{
}

/// Every value of `s` is zero.
pub open spec fn all_zero(s: Seq<i64>) -> bool {
    forall|i: int| 0 <= i < s.len() ==> #[trigger] s[i] == 0
}

/// The magnitude of one complex transform bin, `sqrt(re^2 + im^2)`,
/// rounded down.
pub open spec fn bin_magnitude(re: int, im: int) -> int {
    crate::numeric::sqrt_floor((re * re + im * im) as nat) as int
}

/// Relies on rustfft's `FftPlanner::plan_fft_forward` and
/// `Fft::process`: an in-place forward transform whose length equals
/// the buffer's, one complex bin per input sample, rounded to integer
/// parts on the way out. The transform is linear, so an all-zero input
/// leaves every bin at zero; beyond that, nothing is assumed of the
/// rounded bin values.
#[verifier::external_body]
fn fft_forward(samples: &Vec<i64>) -> (bins: Vec<(i32, i32)>)
    requires
        samples@.len() >= 1,
    ensures
        bins@.len() == samples@.len(),
        all_zero(samples@) ==> forall|i: int|
            0 <= i < bins@.len() ==> (#[trigger] bins@[i]).0 == 0 && bins@[i].1 == 0,
{
    let mut buf: Vec<Complex32> = samples.iter().map(|&x| Complex32::new(x as _, 0 as _)).collect();
    let mut planner = FftPlanner::new();
    let fft = planner.plan_fft_forward(buf.len());
    fft.process(&mut buf);
    buf.iter().map(|c| (c.re as _, c.im as _)).collect()
}

/// Turns complex transform bins into their magnitudes, exactly:
/// each output is the rounded-down square root of `re^2 + im^2`.
pub fn spectrum_magnitudes(bins: &Vec<(i32, i32)>) -> (mags: Vec<i64>)
    ensures
        mags@.len() == bins@.len(),
        forall|i: int| 0 <= i < bins@.len()
            ==> #[trigger] mags@[i] == bin_magnitude(bins@[i].0 as int, bins@[i].1 as int),
{
    let mut mags: Vec<i64> = Vec::new();
    let mut idx: usize = 0;
    while idx < bins.len()
        invariant
            idx <= bins@.len(),
            mags@.len() == idx,
            forall|i: int| 0 <= i < idx
                ==> #[trigger] mags@[i] == bin_magnitude(bins@[i].0 as int, bins@[i].1 as int),
        decreases bins@.len() - idx,
    {
        let (re, im): (i32, i32) = bins[idx];
        let re64: i64 = re as i64;
        let im64: i64 = im as i64;
        proof {
            assert(0 <= re64 as int * re64 as int <= 0x4000_0000_0000_0000
                && 0 <= im64 as int * im64 as int <= 0x4000_0000_0000_0000) by (nonlinear_arith)
                requires
                    -0x8000_0000 <= re64 <= 0x8000_0000,
                    -0x8000_0000 <= im64 <= 0x8000_0000,
            ;
        }
        let sq: u64 = (re64 * re64) as u64 + (im64 * im64) as u64;
        let m: u64 = crate::numeric::isqrt64(sq);
        proof {
            assert(sq as int == re as int * re as int + im as int * im as int);
            assert(m == bin_magnitude(re as int, im as int));
        }
        mags.push(m as i64);
        idx = idx + 1;
    }
    mags
}

/// The magnitude spectrum of `samples`: a forward transform of length
/// `N = samples.len()`, then the magnitude of each of the `N` bins in
/// bin order. An empty input yields an empty spectrum; an all-zero
/// input yields an all-zero spectrum; every magnitude is non-negative.
pub fn compute_fft(samples: &Vec<i64>) -> (spectrum: Vec<i64>)
    ensures
        spectrum@.len() == samples@.len(),
        forall|i: int| 0 <= i < spectrum@.len() ==> #[trigger] spectrum@[i] >= 0,
        all_zero(samples@) ==> all_zero(spectrum@),
{
    if samples.len() == 0 {
        let empty: Vec<i64> = Vec::new();
        return empty;
    }
    let bins = fft_forward(samples);
    let mags = spectrum_magnitudes(&bins);
    proof {
        assert forall|i: int| 0 <= i < mags@.len() implies #[trigger] mags@[i] >= 0 by {
            crate::numeric::lemma_sqrt_floor_is_sqrt(
                (bins@[i].0 as int * bins@[i].0 as int + bins@[i].1 as int * bins@[i].1 as int)
                    as nat,
            );
        }
        if all_zero(samples@) {
            assert forall|i: int| 0 <= i < mags@.len() implies #[trigger] mags@[i] == 0 by {
                assert(bins@[i].0 == 0 && bins@[i].1 == 0);
                assert(bin_magnitude(0, 0) == 0);
            }
        }
    }
    mags
}

/// Optional filter parameters; each absent value falls back to a
/// documented default when a filter is applied.
#[derive(Clone, Copy, Debug)]
pub struct FilterParams {
    pub cutoff_low: Option<u32>,
    pub cutoff_high: Option<u32>,
    pub q_factor: Option<u32>,
}

impl Default for FilterParams {
    /// No parameter supplied: every filter falls back to its defaults.
    fn default() -> (p: FilterParams)
        ensures
            p.cutoff_low is None,
            p.cutoff_high is None,
            p.q_factor is None,
    {
        FilterParams { cutoff_low: None, cutoff_high: None, q_factor: None }
    }
}

/// The supplied value, or the documented default when absent.
pub open spec fn or_default(o: Option<u32>, d: u32) -> u32 {
    match o {
        Some(v) => v,
        None => d,
    }
}

fn unwrap_or(o: Option<u32>, d: u32) -> (r: u32)
    ensures
        r == or_default(o, d),
{
    match o {
        Some(v) => v,
        None => d,
    }
}

/// String equality by character content.
fn str_eq(a: &str, b: &str) -> (r: bool)
    ensures
        r == (a@ == b@),
{
    let owned_a: String = a.to_owned();
    let owned_b: String = b.to_owned();
    owned_a == owned_b
}

/// The filtered sequence that `apply_filter` owes for a recognized
/// filter type, with absent parameters already replaced by their
/// defaults (`cutoff_low` 500, `cutoff_high` 1000 for lowpass and 2000
/// for the band-limited filters, at the nominal capture rate).
pub open spec fn dispatched_filter(s: Seq<int>, ft: Seq<char>, p: FilterParams) -> Seq<int> {
    let rate = NOMINAL_SAMPLE_RATE as int;
    if ft == "lowpass"@ {
        lowpass_seq(s, alpha_of(or_default(p.cutoff_high, 1000) as int, rate))
    } else if ft == "highpass"@ {
        highpass_seq(s, alpha_of(or_default(p.cutoff_low, 500) as int, rate))
    } else if ft == "bandpass"@ {
        bandpass_seq(
            s,
            alpha_of(or_default(p.cutoff_low, 500) as int, rate),
            alpha_of(or_default(p.cutoff_high, 2000) as int, rate),
        )
    } else {
        notch_seq(
            s,
            alpha_of(or_default(p.cutoff_low, 500) as int, rate),
            alpha_of(or_default(p.cutoff_high, 2000) as int, rate),
        )
    }
}

/// Whether `ft` names one of the four filters.
pub open spec fn is_known_filter(ft: Seq<char>) -> bool {
    ft == "lowpass"@ || ft == "highpass"@ || ft == "bandpass"@ || ft == "notch"@
}

/// Dispatches to one of the four filters by name. An unrecognized
/// `filter_type` fails with `FormatError` and performs no computation;
/// a recognized one succeeds and returns the filtered samples.
pub fn apply_filter(buffer: &Vec<i64>, filter_type: &str, params: &FilterParams) -> (r: Result<
    Vec<i64>,
    crate::audio::AudioError,
>)
    requires
        bounded_by(buffer@, SAMPLE_LIMIT as int),
    ensures
        r is Ok <==> is_known_filter(filter_type@),
        r is Err ==> r == Err::<Vec<i64>, crate::audio::AudioError>(
            crate::audio::AudioError::FormatError,
        ),
        r is Ok ==> ints_of(r->Ok_0@) == dispatched_filter(
            ints_of(buffer@),
            filter_type@,
            *params,
        ),
        r is Ok ==> r->Ok_0@.len() == buffer@.len(),
{
    proof {
        reveal_strlit("lowpass");
        reveal_strlit("highpass");
        reveal_strlit("bandpass");
        reveal_strlit("notch");
    }
    let q: u32 = unwrap_or(params.q_factor, 1000);
    if str_eq(filter_type, "lowpass") {
        let cutoff: u32 = unwrap_or(params.cutoff_high, 1000);
        Ok(apply_lowpass_filter(buffer, cutoff, q))
    } else if str_eq(filter_type, "highpass") {
        let cutoff: u32 = unwrap_or(params.cutoff_low, 500);
        Ok(apply_highpass_filter(buffer, cutoff, q))
    } else if str_eq(filter_type, "bandpass") {
        let low: u32 = unwrap_or(params.cutoff_low, 500);
        let high: u32 = unwrap_or(params.cutoff_high, 2000);
        Ok(apply_bandpass_filter(buffer, low, high, q))
    } else if str_eq(filter_type, "notch") {
        let low: u32 = unwrap_or(params.cutoff_low, 500);
        let high: u32 = unwrap_or(params.cutoff_high, 2000);
        Ok(apply_notch_filter(buffer, low, high, q))
    } else {
        Err(crate::audio::AudioError::FormatError)
    }
}

/// The lowpass output at index `i` of a chunk, continuing a stream
/// whose previous output (if any) is carried in `prev`.
pub open spec fn lowpass_cont(prev: Option<int>, s: Seq<int>, alpha: int, i: int) -> int
    decreases i,
{
    if i <= 0 {
        match prev {
            None => s[0],
            Some(p) => lowpass_step(p, s[0], alpha),
        }
    } else {
        lowpass_step(lowpass_cont(prev, s, alpha, i - 1), s[i], alpha)
    }
}

/// The highpass output at index `i` of a chunk, continuing a stream
/// whose previous output and previous input (if any) are carried in
/// `prev`.
pub open spec fn highpass_cont(prev: Option<(int, int)>, s: Seq<int>, alpha: int, i: int) -> int
    decreases i,
{
    if i <= 0 {
        match prev {
            None => s[0],
            Some(p) => highpass_step(p.0, p.1, s[0], alpha),
        }
    } else {
        highpass_step(highpass_cont(prev, s, alpha, i - 1), s[i - 1], s[i], alpha)
    }
}

/// A fresh stage filters exactly as the one-shot recurrence does.
pub proof fn lemma_lowpass_cont_fresh(s: Seq<int>, alpha: int, i: int)
    requires
        0 <= i < s.len(),
    ensures
        lowpass_cont(None, s, alpha, i) == lowpass_at(s, alpha, i),
    decreases i,
{
    if i > 0 {
        lemma_lowpass_cont_fresh(s, alpha, i - 1);
    }
}

/// A fresh stage filters exactly as the one-shot recurrence does.
pub proof fn lemma_highpass_cont_fresh(s: Seq<int>, alpha: int, i: int)
    requires
        0 <= i < s.len(),
    ensures
        highpass_cont(None, s, alpha, i) == highpass_at(s, alpha, i),
    decreases i,
{
    if i > 0 {
        lemma_highpass_cont_fresh(s, alpha, i - 1);
    }
}

proof fn lemma_lowpass_cont_prefix(prev: Option<int>, x: Seq<int>, y: Seq<int>, alpha: int, i: int)
    requires
        0 <= i < x.len(),
    ensures
        lowpass_cont(prev, x + y, alpha, i) == lowpass_cont(prev, x, alpha, i),
    decreases i,
{
    if i > 0 {
        lemma_lowpass_cont_prefix(prev, x, y, alpha, i - 1);
    }
    assert((x + y)[i] == x[i]);
    if i > 0 {
        assert((x + y)[0] == x[0]);
    }
}

proof fn lemma_highpass_cont_prefix(
    prev: Option<(int, int)>,
    x: Seq<int>,
    y: Seq<int>,
    alpha: int,
    i: int,
)
    requires
        0 <= i < x.len(),
    ensures
        highpass_cont(prev, x + y, alpha, i) == highpass_cont(prev, x, alpha, i),
    decreases i,
{
    if i > 0 {
        lemma_highpass_cont_prefix(prev, x, y, alpha, i - 1);
        assert((x + y)[i - 1] == x[i - 1]);
    }
    assert((x + y)[i] == x[i]);
}

/// Filtering a stream in chunks, carrying the stage state between
/// them, equals filtering the whole stream at once: the outputs for
/// the second chunk continue exactly where the first chunk left off.
pub proof fn lemma_lowpass_chunked(prev: Option<int>, x: Seq<int>, y: Seq<int>, alpha: int, j: int)
    requires
        x.len() >= 1,
        0 <= j < y.len(),
    ensures
        lowpass_cont(Some(lowpass_cont(prev, x, alpha, x.len() - 1)), y, alpha, j)
            == lowpass_cont(prev, x + y, alpha, x.len() + j),
    decreases j,
{
    if j == 0 {
        lemma_lowpass_cont_prefix(prev, x, y, alpha, x.len() - 1);
        assert((x + y)[x.len() as int] == y[0]);
    } else {
        lemma_lowpass_chunked(prev, x, y, alpha, j - 1);
        assert((x + y)[x.len() + j] == y[j]);
        assert((x + y)[x.len() + j - 1] == y[j - 1]);
    }
}

/// The highpass counterpart of the chunked-filtering law: the carried
/// state is the last output together with the last input.
pub proof fn lemma_highpass_chunked(
    prev: Option<(int, int)>,
    x: Seq<int>,
    y: Seq<int>,
    alpha: int,
    j: int,
)
    requires
        x.len() >= 1,
        0 <= j < y.len(),
    ensures
        highpass_cont(
            Some((highpass_cont(prev, x, alpha, x.len() - 1), x[x.len() - 1])),
            y,
            alpha,
            j,
        ) == highpass_cont(prev, x + y, alpha, x.len() + j),
    decreases j,
{
    if j == 0 {
        lemma_highpass_cont_prefix(prev, x, y, alpha, x.len() - 1);
        assert((x + y)[x.len() as int] == y[0]);
        assert((x + y)[x.len() - 1] == x[x.len() - 1]);
    } else {
        lemma_highpass_chunked(prev, x, y, alpha, j - 1);
        assert((x + y)[x.len() + j] == y[j]);
        assert((x + y)[x.len() + j - 1] == y[j - 1]);
    }
}

/// Streaming first-order lowpass stage: carries the previous output of
/// its stream so successive chunks filter as the whole stream would.
pub struct LowpassStage {
    alpha: i64,
    prev_out: Option<i64>,
}

impl LowpassStage {
    /// The per-mille smoothing coefficient of this stage.
    pub closed spec fn spec_alpha(&self) -> int {
        self.alpha as int
    }

    /// The carried previous output, if any sample has passed.
    pub closed spec fn spec_prev(&self) -> Option<int> {
        match self.prev_out {
            Some(p) => Some(p as int),
            None => None,
        }
    }

    /// The coefficient is a proper per-mille fraction and the carried
    /// output lies in the filters' working range.
    pub open spec fn wf(&self) -> bool {
        &&& 1 <= self.spec_alpha() < ALPHA_SCALE as int
        &&& match self.spec_prev() {
            Some(p) => -VALUE_LIMIT as int <= p <= VALUE_LIMIT as int,
            None => true,
        }
    }

    /// A fresh stage for one stream, with the coefficient derived from
    /// `cutoff` at the session's sample rate.
    pub fn new(cutoff: u32, sample_rate: u32) -> (st: LowpassStage)
        requires
            sample_rate >= 1,
        ensures
            st.wf(),
            st.spec_alpha() == alpha_of(cutoff as int, sample_rate as int),
            st.spec_prev() is None,
    {
        LowpassStage { alpha: alpha_permille(cutoff, sample_rate), prev_out: None }
    }

    /// Forgets the carried state: the next chunk starts a new stream.
    pub fn reset(&mut self)
        ensures
            final(self).spec_alpha() == old(self).spec_alpha(),
            final(self).spec_prev() is None,
            old(self).wf() ==> final(self).wf(),
    {
        self.prev_out = None;
    }

    /// Filters one chunk, continuing the stream at the carried state.
    /// An empty chunk is a no-op: it yields an empty output and leaves
    /// the state untouched.
    pub fn process_chunk(&mut self, chunk: &Vec<i64>) -> (out: Vec<i64>)
        requires
            old(self).wf(),
            bounded_by(chunk@, VALUE_LIMIT as int),
        ensures
            final(self).wf(),
            final(self).spec_alpha() == old(self).spec_alpha(),
            out@.len() == chunk@.len(),
            forall|i: int| 0 <= i < chunk@.len() ==> #[trigger] out@[i] == lowpass_cont(
                old(self).spec_prev(),
                ints_of(chunk@),
                old(self).spec_alpha(),
                i,
            ),
            bounded_by(out@, VALUE_LIMIT as int),
            chunk@.len() == 0 ==> *final(self) == *old(self),
            chunk@.len() > 0 ==> final(self).spec_prev() == Some(
                lowpass_cont(
                    old(self).spec_prev(),
                    ints_of(chunk@),
                    old(self).spec_alpha(),
                    chunk@.len() - 1,
                ),
            ),
    {
        let ghost s = ints_of(chunk@);
        let ghost p0 = old(self).spec_prev();
        let ghost a = old(self).spec_alpha();
        let mut out: Vec<i64> = Vec::new();
        let mut idx: usize = 0;
        while idx < chunk.len()
            invariant
                idx <= chunk@.len(),
                s == ints_of(chunk@),
                a == self.alpha as int,
                1 <= self.alpha < ALPHA_SCALE,
                bounded_by(chunk@, VALUE_LIMIT as int),
                out@.len() == idx,
                forall|i: int| 0 <= i < idx ==> #[trigger] out@[i] == lowpass_cont(p0, s, a, i),
                bounded_by(out@, VALUE_LIMIT as int),
                idx == 0 ==> self.spec_prev() == p0,
                idx > 0 ==> self.spec_prev() == Some(out@[idx - 1] as int),
                self.wf(),
            decreases chunk@.len() - idx,
        {
            let x: i64 = chunk[idx];
            let next: i64 = match self.prev_out {
                None => x,
                Some(p) => {
                    let delta: i64 = x - p;
                    proof {
                        assert(-999 * (2 * VALUE_LIMIT as int) <= self.alpha * (delta as int)
                            <= 999 * (2 * VALUE_LIMIT as int)) by (nonlinear_arith)
                            requires
                                1 <= self.alpha < 1000,
                                -2 * VALUE_LIMIT as int <= delta as int <= 2 * VALUE_LIMIT as int,
                        ;
                    }
                    let scaled: i64 = self.alpha * delta;
                    let inc: i64 = div_trunc(scaled, 1000);
                    proof {
                        lemma_lowpass_step_in_hull(p as int, x as int, self.alpha as int);
                    }
                    p + inc
                },
            };
            out.push(next);
            self.prev_out = Some(next);
            idx = idx + 1;
        }
        out
    }
}

/// Streaming first-order highpass stage: carries the previous output
/// and previous input of its stream so successive chunks filter as the
/// whole stream would.
pub struct HighpassStage {
    alpha: i64,
    prev: Option<(i64, i64)>,
}

impl HighpassStage {
    /// The per-mille smoothing coefficient of this stage.
    pub closed spec fn spec_alpha(&self) -> int {
        self.alpha as int
    }

    /// The carried previous output and previous input, if any sample
    /// has passed.
    pub closed spec fn spec_prev(&self) -> Option<(int, int)> {
        match self.prev {
            Some(p) => Some((p.0 as int, p.1 as int)),
            None => None,
        }
    }

    /// The coefficient is a proper per-mille fraction, the carried
    /// output lies in the filters' working range, and the carried input
    /// in the sample range.
    pub open spec fn wf(&self) -> bool {
        &&& 1 <= self.spec_alpha() < ALPHA_SCALE as int
        &&& match self.spec_prev() {
            Some(p) => -VALUE_LIMIT as int <= p.0 <= VALUE_LIMIT as int && -SAMPLE_LIMIT as int
                <= p.1 <= SAMPLE_LIMIT as int,
            None => true,
        }
    }

    /// A fresh stage for one stream, with the coefficient derived from
    /// `cutoff` at the session's sample rate.
    pub fn new(cutoff: u32, sample_rate: u32) -> (st: HighpassStage)
        requires
            sample_rate >= 1,
        ensures
            st.wf(),
            st.spec_alpha() == alpha_of(cutoff as int, sample_rate as int),
            st.spec_prev() is None,
    {
        HighpassStage { alpha: alpha_permille(cutoff, sample_rate), prev: None }
    }

    /// Forgets the carried state: the next chunk starts a new stream.
    pub fn reset(&mut self)
        ensures
            final(self).spec_alpha() == old(self).spec_alpha(),
            final(self).spec_prev() is None,
            old(self).wf() ==> final(self).wf(),
    {
        self.prev = None;
    }

    /// Filters one chunk, continuing the stream at the carried state.
    /// An empty chunk is a no-op: it yields an empty output and leaves
    /// the state untouched.
    pub fn process_chunk(&mut self, chunk: &Vec<i64>) -> (out: Vec<i64>)
        requires
            old(self).wf(),
            bounded_by(chunk@, SAMPLE_LIMIT as int),
        ensures
            final(self).wf(),
            final(self).spec_alpha() == old(self).spec_alpha(),
            out@.len() == chunk@.len(),
            forall|i: int| 0 <= i < chunk@.len() ==> #[trigger] out@[i] == highpass_cont(
                old(self).spec_prev(),
                ints_of(chunk@),
                old(self).spec_alpha(),
                i,
            ),
            bounded_by(out@, VALUE_LIMIT as int),
            chunk@.len() == 0 ==> *final(self) == *old(self),
            chunk@.len() > 0 ==> final(self).spec_prev() == Some(
                (
                    highpass_cont(
                        old(self).spec_prev(),
                        ints_of(chunk@),
                        old(self).spec_alpha(),
                        chunk@.len() - 1,
                    ),
                    chunk@[chunk@.len() - 1] as int,
                ),
            ),
    {
        let ghost s = ints_of(chunk@);
        let ghost p0 = old(self).spec_prev();
        let ghost a = old(self).spec_alpha();
        let mut out: Vec<i64> = Vec::new();
        let mut idx: usize = 0;
        while idx < chunk.len()
            invariant
                idx <= chunk@.len(),
                s == ints_of(chunk@),
                a == self.alpha as int,
                1 <= self.alpha < ALPHA_SCALE,
                bounded_by(chunk@, SAMPLE_LIMIT as int),
                out@.len() == idx,
                forall|i: int| 0 <= i < idx ==> #[trigger] out@[i] == highpass_cont(p0, s, a, i),
                bounded_by(out@, VALUE_LIMIT as int),
                idx == 0 ==> self.spec_prev() == p0,
                idx > 0 ==> self.spec_prev() == Some(
                    (out@[idx - 1] as int, chunk@[idx - 1] as int),
                ),
                self.wf(),
            decreases chunk@.len() - idx,
        {
            let x: i64 = chunk[idx];
            let next: i64 = match self.prev {
                None => x,
                Some((p_out, p_in)) => {
                    let inner: i64 = p_out + x - p_in;
                    proof {
                        assert(-999 * (VALUE_LIMIT as int + 2 * SAMPLE_LIMIT as int) <= self.alpha
                            * (inner as int) <= 999 * (VALUE_LIMIT as int + 2 * SAMPLE_LIMIT
                            as int)) by (nonlinear_arith)
                            requires
                                1 <= self.alpha < 1000,
                                -(VALUE_LIMIT as int + 2 * SAMPLE_LIMIT as int) <= inner as int
                                    <= VALUE_LIMIT as int + 2 * SAMPLE_LIMIT as int,
                        ;
                    }
                    let scaled: i64 = self.alpha * inner;
                    let stepped: i64 = div_trunc(scaled, 1000);
                    proof {
                        lemma_trunc_div_mag(
                            scaled as int,
                            ALPHA_SCALE as int,
                            999 * (VALUE_LIMIT as int + 2 * SAMPLE_LIMIT as int),
                        );
                    }
                    stepped
                },
            };
            out.push(next);
            self.prev = Some((next, x));
            idx = idx + 1;
        }
        out
    }
}

/// Streaming bandpass: a highpass stage at the low cutoff feeding a
/// lowpass stage at the high cutoff, each keeping its own state.
pub struct BandpassStage {
    pub high_stage: HighpassStage,
    pub low_stage: LowpassStage,
}

impl BandpassStage {
    pub open spec fn wf(&self) -> bool {
        self.high_stage.wf() && self.low_stage.wf()
    }

    /// A fresh cascade for one stream at the session's sample rate.
    pub fn new(low_cutoff: u32, high_cutoff: u32, sample_rate: u32) -> (st: BandpassStage)
        requires
            sample_rate >= 1,
        ensures
            st.wf(),
            st.high_stage.spec_alpha() == alpha_of(low_cutoff as int, sample_rate as int),
            st.low_stage.spec_alpha() == alpha_of(high_cutoff as int, sample_rate as int),
            st.high_stage.spec_prev() is None,
            st.low_stage.spec_prev() is None,
    {
        BandpassStage {
            high_stage: HighpassStage::new(low_cutoff, sample_rate),
            low_stage: LowpassStage::new(high_cutoff, sample_rate),
        }
    }

    /// Forgets both stages' carried state.
    pub fn reset(&mut self)
        ensures
            final(self).high_stage.spec_alpha() == old(self).high_stage.spec_alpha(),
            final(self).low_stage.spec_alpha() == old(self).low_stage.spec_alpha(),
            final(self).high_stage.spec_prev() is None,
            final(self).low_stage.spec_prev() is None,
            old(self).wf() ==> final(self).wf(),
    {
        self.high_stage.reset();
        self.low_stage.reset();
    }

    /// Filters one chunk through both stages, continuing each stage's
    /// stream at its carried state.
    pub fn process_chunk(&mut self, chunk: &Vec<i64>) -> (out: Vec<i64>)
        requires
            old(self).wf(),
            bounded_by(chunk@, SAMPLE_LIMIT as int),
        ensures
            final(self).wf(),
            final(self).high_stage.spec_alpha() == old(self).high_stage.spec_alpha(),
            final(self).low_stage.spec_alpha() == old(self).low_stage.spec_alpha(),
            out@.len() == chunk@.len(),
            ({
                let highpassed = Seq::new(
                    chunk@.len() as nat,
                    |i: int| highpass_cont(
                        old(self).high_stage.spec_prev(),
                        ints_of(chunk@),
                        old(self).high_stage.spec_alpha(),
                        i,
                    ),
                );
                forall|i: int| 0 <= i < chunk@.len() ==> #[trigger] out@[i] == lowpass_cont(
                    old(self).low_stage.spec_prev(),
                    highpassed,
                    old(self).low_stage.spec_alpha(),
                    i,
                )
            }),
            bounded_by(out@, VALUE_LIMIT as int),
            chunk@.len() == 0 ==> *final(self) == *old(self),
    {
        let highpassed = self.high_stage.process_chunk(chunk);
        proof {
            assert(ints_of(highpassed@) =~= Seq::new(
                chunk@.len() as nat,
                |i: int| highpass_cont(
                    old(self).high_stage.spec_prev(),
                    ints_of(chunk@),
                    old(self).high_stage.spec_alpha(),
                    i,
                ),
            ));
        }
        self.low_stage.process_chunk(&highpassed)
    }
}

/// Streaming notch: the input minus the streaming bandpass, so the
/// complement invariant holds chunk by chunk.
pub struct NotchStage {
    pub band: BandpassStage,
}

impl NotchStage {
    pub open spec fn wf(&self) -> bool {
        self.band.wf()
    }

    /// A fresh notch for one stream at the session's sample rate.
    pub fn new(low_cutoff: u32, high_cutoff: u32, sample_rate: u32) -> (st: NotchStage)
        requires
            sample_rate >= 1,
        ensures
            st.wf(),
            st.band.high_stage.spec_prev() is None,
            st.band.low_stage.spec_prev() is None,
    {
        NotchStage { band: BandpassStage::new(low_cutoff, high_cutoff, sample_rate) }
    }

    /// Forgets the carried state of the underlying cascade.
    pub fn reset(&mut self)
        ensures
            final(self).band.high_stage.spec_prev() is None,
            final(self).band.low_stage.spec_prev() is None,
            old(self).wf() ==> final(self).wf(),
    {
        self.band.reset();
    }

    /// Filters one chunk: at every index the output is the input minus
    /// the streaming bandpassed value, so the two sum back to the input
    /// exactly.
    pub fn process_chunk(&mut self, chunk: &Vec<i64>) -> (out: Vec<i64>)
        requires
            old(self).wf(),
            bounded_by(chunk@, SAMPLE_LIMIT as int),
        ensures
            final(self).wf(),
            out@.len() == chunk@.len(),
            ({
                let highpassed = Seq::new(
                    chunk@.len() as nat,
                    |i: int| highpass_cont(
                        old(self).band.high_stage.spec_prev(),
                        ints_of(chunk@),
                        old(self).band.high_stage.spec_alpha(),
                        i,
                    ),
                );
                forall|i: int| 0 <= i < chunk@.len() ==> #[trigger] out@[i] == chunk@[i]
                    - lowpass_cont(
                    old(self).band.low_stage.spec_prev(),
                    highpassed,
                    old(self).band.low_stage.spec_alpha(),
                    i,
                )
            }),
            chunk@.len() == 0 ==> *final(self) == *old(self),
    {
        let bandpassed = self.band.process_chunk(chunk);
        let mut out: Vec<i64> = Vec::new();
        let mut idx: usize = 0;
        while idx < chunk.len()
            invariant
                idx <= chunk@.len(),
                bandpassed@.len() == chunk@.len(),
                bounded_by(chunk@, SAMPLE_LIMIT as int),
                bounded_by(bandpassed@, VALUE_LIMIT as int),
                out@.len() == idx,
                forall|i: int| 0 <= i < idx ==> #[trigger] out@[i] == chunk@[i] - bandpassed@[i],
            decreases chunk@.len() - idx,
        {
            out.push(chunk[idx] - bandpassed[idx]);
            idx = idx + 1;
        }
        out
    }
}

/// Lowpass filtering a constant signal reproduces it: once the running
/// output equals the input, the recurrence no longer deviates.
pub proof fn lemma_lowpass_constant(s: Seq<int>, alpha: int, c: int, i: int)
    requires
        forall|j: int| 0 <= j < s.len() ==> s[j] == c,
        0 <= i < s.len(),
    ensures
        lowpass_seq(s, alpha)[i] == c,
    decreases i,
{
    if i > 0 {
        lemma_lowpass_constant(s, alpha, c, i - 1);
        assert(alpha * (c - c) == 0) by (nonlinear_arith);
        assert(trunc_div(0, ALPHA_SCALE as int) == 0);
    }
}

} // verus!
