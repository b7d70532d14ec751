//! Integer model of the spectral analyzer.
//!
//! The Fourier transform itself is an external collaborator; it is consumed
//! only through `update_fft`, which loads one block's magnitude spectrum as
//! fixed-point values, and the narrow `get_energy_in_band` query.  Silence
//! detection works on the raw signed samples of the imported block.

use vstd::prelude::*;
use std::collections::VecDeque;
use crate::animation::{AnimationError, Color};

verus! {

/// Upper bound on one spectral magnitude (fixed point); keeps every band
/// mean and every adaptive-gain product inside `u64`.
pub const MAG_CAP: u64 = 0x100_0000_0000;

/// Upper bound on the analysis block length.
pub const MAX_BLOCK_LEN: usize = 0x10_0000;

/// Band edges shared by all animations, in Hz: bass, mid, treble, air.
pub const FREQ_BASS_LO: u64 = 0;

pub const FREQ_BASS_HI: u64 = 400;

pub const FREQ_MID_HI: u64 = 4000;

pub const FREQ_TREBLE_HI: u64 = 12000;

pub const FREQ_AIR_HI: u64 = 22000;

/// Sum of the signed samples of a block.
pub open spec fn sample_sum(s: Seq<i16>) -> int
    decreases s.len(),
{
    if s.len() == 0 {
        0
    } else {
        sample_sum(s.drop_last()) + s.last()
    }
}

/// Sum of the magnitudes over the inclusive bin range `[lo, hi]`.
pub open spec fn mag_sum(s: Seq<u64>, lo: int, hi: int) -> int
    decreases hi - lo + 1,
{
    if hi < lo {
        0
    } else {
        mag_sum(s, lo, hi - 1) + s[hi]
    }
}

/// Every magnitude of `s` is at most `cap`.
pub open spec fn mags_le(s: Seq<u64>, cap: int) -> bool {
    forall|i: int| 0 <= i < s.len() ==> #[trigger] s[i] <= cap
}

pub proof fn lemma_mag_sum_bounds(s: Seq<u64>, lo: int, hi: int, cap: int)
    requires
        0 <= lo <= hi + 1,
        hi < s.len(),
        mags_le(s, cap),
        0 <= cap,
    ensures
        0 <= mag_sum(s, lo, hi),
        mag_sum(s, lo, hi) <= (hi - lo + 1) * cap,
    decreases hi - lo + 1,
{
    if hi < lo {
        assert((hi - lo + 1) * cap >= 0) by (nonlinear_arith)
            requires hi - lo + 1 >= 0 && cap >= 0;
    } else {
        lemma_mag_sum_bounds(s, lo, hi - 1, cap);
        assert((hi - lo) * cap + cap == (hi - lo + 1) * cap) by (nonlinear_arith);
    }
}

/// The spectral analyzer as the engine sees it: one imported block
/// (represented by its raw sample sum) and one magnitude spectrum.
pub struct SignalProcessing {
    pub samp_rate: u64,
    pub block_len: usize,
    pub input_sum: i64,
    pub fft_absolute: Vec<u64>,
}

impl SignalProcessing {
    pub open spec fn wf(&self) -> bool {
        &&& 2 <= self.block_len <= MAX_BLOCK_LEN
        &&& self.block_len % 2 == 0
        &&& 2 <= self.samp_rate <= 0x1_0000_0000
        &&& self.samp_rate % 2 == 0
        &&& self.fft_absolute@.len() == self.block_len / 2 + 1
        &&& mags_le(self.fft_absolute@, MAG_CAP as int)
    }

    /// The spectral bin holding frequency `f`.
    pub open spec fn bin_of(&self, f: int) -> int {
        f * (self.block_len as int) / (self.samp_rate as int)
    }

    /// Mean magnitude over the inclusive bin range `[bin_of(f0), bin_of(f1)]`.
    pub open spec fn band_energy(&self, f0: int, f1: int) -> int {
        mag_sum(self.fft_absolute@, self.bin_of(f0), self.bin_of(f1)) / (self.bin_of(f1)
            - self.bin_of(f0) + 1)
    }

    pub fn new(block_len: usize, samp_rate: u64) -> (s: SignalProcessing)
        requires
            2 <= block_len <= MAX_BLOCK_LEN,
            block_len % 2 == 0,
            2 <= samp_rate <= 0x1_0000_0000,
            samp_rate % 2 == 0,
        ensures
            s.wf(),
            s.block_len == block_len,
            s.samp_rate == samp_rate,
            s.input_sum == 0,
            forall|i: int| 0 <= i < s.fft_absolute@.len() ==> #[trigger] s.fft_absolute@[i] == 0,
    {
        let bins: usize = block_len / 2 + 1;
        let mut mags: Vec<u64> = Vec::new();
        let mut i: usize = 0;
        while i < bins
            invariant
                i <= bins,
                mags@.len() == i,
                forall|j: int| 0 <= j < i ==> #[trigger] mags@[j] == 0,
            decreases bins - i,
        {
            mags.push(0);
            i += 1;
        }
        SignalProcessing { samp_rate, block_len, input_sum: 0, fft_absolute: mags }
    }

    /// Import one block of mono samples; only the raw sample sum is retained
    /// here, the windowed transform input lives with the transform itself.
    pub fn import_i16_mono(&mut self, data: &[i16]) -> (r: Result<(), &'static str>)
        requires
            old(self).wf(),
        ensures
            final(self).wf(),
            r.is_ok() <==> data@.len() == old(self).block_len,
            final(self).samp_rate == old(self).samp_rate,
            final(self).block_len == old(self).block_len,
            final(self).fft_absolute == old(self).fft_absolute,
            r.is_ok() ==> final(self).input_sum == sample_sum(data@),
            r.is_err() ==> *final(self) == *old(self),
    {
        if data.len() != self.block_len {
            return Err("Mono data length does not match the FFT input length.");
        }
        self.input_sum = Self::sum_samples(data);
        Ok(())
    }

    /// Import one block of interleaved stereo samples; the channels are
    /// averaged for analysis, so the block is silent iff the raw sum of
    /// both channels together is zero.
    pub fn import_i16_stereo(&mut self, data: &[i16]) -> (r: Result<(), &'static str>)
        requires
            old(self).wf(),
        ensures
            final(self).wf(),
            r.is_ok() <==> data@.len() == 2 * old(self).block_len,
            final(self).samp_rate == old(self).samp_rate,
            final(self).block_len == old(self).block_len,
            final(self).fft_absolute == old(self).fft_absolute,
            r.is_ok() ==> final(self).input_sum == sample_sum(data@),
            r.is_err() ==> *final(self) == *old(self),
    {
        if data.len() / 2 != self.block_len || data.len() % 2 != 0 {
            return Err("Stereo data length does not match 2x the FFT input length.");
        }
        self.input_sum = Self::sum_samples(data);
        Ok(())
    }

    /// Import one block of mono samples from the front of a sample queue;
    /// elements beyond the block length are ignored.
    pub fn import_i16_mono_from_iter(&mut self, iter: &VecDeque<i16>) -> (r: Result<
        (),
        &'static str,
    >)
        requires
            old(self).wf(),
        ensures
            final(self).wf(),
            r.is_ok() <==> iter@.len() >= old(self).block_len,
            final(self).samp_rate == old(self).samp_rate,
            final(self).block_len == old(self).block_len,
            final(self).fft_absolute == old(self).fft_absolute,
            r.is_ok() ==> final(self).input_sum == sample_sum(
                iter@.take(old(self).block_len as int),
            ),
            r.is_err() ==> *final(self) == *old(self),
    {
        if iter.len() < self.block_len {
            return Err("Too few samples in input.");
        }
        let n = self.block_len;
        let mut sum: i64 = 0;
        let mut i: usize = 0;
        while i < n
            invariant
                i <= n,
                n <= iter@.len(),
                n <= MAX_BLOCK_LEN,
                sum == sample_sum(iter@.take(n as int).take(i as int)),
                -0x8000_0000_0000 <= sum <= 0x8000_0000_0000,
            decreases n - i,
        {
            proof {
                let pref = iter@.take(n as int);
                assert(pref.take(i as int + 1).drop_last() =~= pref.take(i as int));
                assert(pref.take(i as int + 1).last() == iter@[i as int]);
                lemma_sample_sum_bounds(pref.take(i as int + 1));
            }
            sum = sum + iter[i] as i64;
            i += 1;
        }
        proof {
            assert(iter@.take(n as int).take(n as int) =~= iter@.take(n as int));
        }
        self.input_sum = sum;
        Ok(())
    }

    fn sum_samples(data: &[i16]) -> (s: i64)
        requires
            data@.len() <= 2 * MAX_BLOCK_LEN,
        ensures
            s == sample_sum(data@),
    {
        let n = data.len();
        let mut sum: i64 = 0;
        let mut i: usize = 0;
        while i < n
            invariant
                i <= n,
                n == data@.len(),
                n <= 2 * MAX_BLOCK_LEN,
                sum == sample_sum(data@.take(i as int)),
                -0x8000_0000_0000 <= sum <= 0x8000_0000_0000,
            decreases n - i,
        {
            proof {
                assert(data@.take(i as int + 1).drop_last() =~= data@.take(i as int));
                assert(data@.take(i as int + 1).last() == data@[i as int]);
                lemma_sample_sum_bounds(data@.take(i as int + 1));
            }
            sum = sum + data[i] as i64;
            i += 1;
        }
        proof {
            assert(data@.take(n as int) =~= data@);
        }
        sum
    }

    /// The just-imported block is silent iff its raw sample sum is zero.
    pub fn is_silent(&self) -> (r: bool)
        ensures
            r <==> self.input_sum == 0,
    {
        self.input_sum == 0
    }

    /// Load the magnitude spectrum computed externally from the imported
    /// block, as fixed-point absolute values per bin.
    #[verifier::loop_isolation(false)]
    pub fn update_fft(&mut self, magnitudes: &Vec<u64>) -> (r: Result<(), AnimationError>)
        requires
            old(self).wf(),
        ensures
            final(self).wf(),
            final(self).samp_rate == old(self).samp_rate,
            final(self).block_len == old(self).block_len,
            final(self).input_sum == old(self).input_sum,
            r.is_ok() <==> (magnitudes@.len() == old(self).fft_absolute@.len() && mags_le(
                magnitudes@,
                MAG_CAP as int,
            )),
            r.is_ok() ==> final(self).fft_absolute@ == magnitudes@,
            r.is_err() ==> *final(self) == *old(self),
    {
        if magnitudes.len() != self.fft_absolute.len() {
            return Err(
                AnimationError::ErrorMessage(String::from_str("spectrum length mismatch")),
            );
        }
        let n = magnitudes.len();
        let mut i: usize = 0;
        while i < n
            invariant
                i <= n,
                n == magnitudes@.len(),
                forall|j: int| 0 <= j < i ==> #[trigger] magnitudes@[j] <= MAG_CAP,
            decreases n - i,
        {
            if magnitudes[i] > MAG_CAP {
                return Err(
                    AnimationError::ErrorMessage(String::from_str("spectrum magnitude out of range")),
                );
            }
            i += 1;
        }
        let mut mags: Vec<u64> = Vec::with_capacity(n);
        let mut j: usize = 0;
        while j < n
            invariant
                j <= n,
                n == magnitudes@.len(),
                mags@.len() == j,
                forall|k: int| 0 <= k < j ==> #[trigger] mags@[k] == magnitudes@[k],
            decreases n - j,
        {
            mags.push(magnitudes[j]);
            j += 1;
        }
        proof {
            assert(mags@ =~= magnitudes@);
        }
        self.fft_absolute = mags;
        Ok(())
    }

    /// The spectral bin holding frequency `freq`.
    pub fn freq_to_idx(&self, freq: u64) -> (idx: usize)
        requires
            self.wf(),
            freq <= self.samp_rate / 2,
        ensures
            idx == self.bin_of(freq as int),
            idx < self.fft_absolute@.len(),
    {
        proof {
            crate::fixed::lemma_mul_le(
                freq as int,
                self.block_len as int,
                self.samp_rate as int / 2,
                MAX_BLOCK_LEN as int,
            );
            lemma_bin_of_half(self.samp_rate as int, self.block_len as int, freq as int);
        }
        (freq * (self.block_len as u64) / self.samp_rate) as usize
    }

    /// Mean magnitude over the inclusive bin range covering
    /// `[freq_start, freq_end]`; never negative by construction.
    pub fn get_energy_in_band(&self, freq_start: u64, freq_end: u64) -> (r: u64)
        requires
            self.wf(),
            freq_start <= freq_end,
            freq_end <= self.samp_rate / 2,
        ensures
            r == self.band_energy(freq_start as int, freq_end as int),
            0 <= r <= MAG_CAP,
    {
        let start_bin = self.freq_to_idx(freq_start);
        let end_bin = self.freq_to_idx(freq_end);
        proof {
            lemma_bin_monotone(
                self.samp_rate as int,
                self.block_len as int,
                freq_start as int,
                freq_end as int,
            );
        }
        let count: u64 = (end_bin - start_bin + 1) as u64;
        let mut sum: u64 = 0;
        let mut i: usize = start_bin;
        while i <= end_bin
            invariant
                start_bin <= i <= end_bin + 1,
                end_bin < self.fft_absolute@.len(),
                self.wf(),
                sum == mag_sum(self.fft_absolute@, start_bin as int, i as int - 1),
                sum <= (i - start_bin) * (MAG_CAP as int),
            decreases end_bin + 1 - i,
        {
            proof {
                lemma_mag_sum_bounds(
                    self.fft_absolute@,
                    start_bin as int,
                    i as int,
                    MAG_CAP as int,
                );
                crate::fixed::lemma_mul_le(
                    i as int - start_bin + 1,
                    MAG_CAP as int,
                    MAX_BLOCK_LEN as int + 1,
                    MAG_CAP as int,
                );
            }
            sum = sum + self.fft_absolute[i];
            i += 1;
        }
        proof {
            lemma_mag_sum_bounds(
                self.fft_absolute@,
                start_bin as int,
                end_bin as int,
                MAG_CAP as int,
            );
            lemma_div_mean_le_cap(
                mag_sum(self.fft_absolute@, start_bin as int, end_bin as int),
                count as int,
                MAG_CAP as int,
            );
        }
        sum / count
    }

    /// Band reading `i` in the canonical channel order: bass, mid, treble,
    /// air.
    pub open spec fn band_of(&self, i: int) -> int {
        if i == 0 {
            self.band_energy(FREQ_BASS_LO as int, FREQ_BASS_HI as int)
        } else if i == 1 {
            self.band_energy(FREQ_BASS_HI as int, FREQ_MID_HI as int)
        } else if i == 2 {
            self.band_energy(FREQ_MID_HI as int, FREQ_TREBLE_HI as int)
        } else {
            self.band_energy(FREQ_TREBLE_HI as int, FREQ_AIR_HI as int)
        }
    }

    /// The four shared band readings: bass, mid, treble and air, as the
    /// R, G, B and W channels of one color-shaped reading.
    pub fn get_band_energies(&self) -> (e: Color)
        requires
            self.wf(),
            self.samp_rate >= 2 * FREQ_AIR_HI,
        ensures
            forall|i: int| 0 <= i < 4 ==> #[trigger] crate::animation::chan(e, i) == self.band_of(i),
            crate::animation::color_le(e, MAG_CAP as int),
    {
        Color {
            r: self.get_energy_in_band(FREQ_BASS_LO, FREQ_BASS_HI),
            g: self.get_energy_in_band(FREQ_BASS_HI, FREQ_MID_HI),
            b: self.get_energy_in_band(FREQ_MID_HI, FREQ_TREBLE_HI),
            w: self.get_energy_in_band(FREQ_TREBLE_HI, FREQ_AIR_HI),
        }
    }
}

pub proof fn lemma_sample_sum_bounds(s: Seq<i16>)
    ensures
        -0x8000 * s.len() <= sample_sum(s) <= 0x8000 * s.len(),
    decreases s.len(),
{
    if s.len() > 0 {
        lemma_sample_sum_bounds(s.drop_last());
    }
}

/// A frequency at most half the sample rate lands inside the spectrum.
proof fn lemma_bin_of_half(rate: int, n: int, f: int) by (nonlinear_arith)
    requires
        2 <= rate,
        rate % 2 == 0,
        2 <= n,
        0 <= f <= rate / 2,
    ensures
        0 <= f * n / rate <= n / 2,
{
}

proof fn lemma_bin_monotone(rate: int, n: int, f0: int, f1: int) by (nonlinear_arith)
    requires
        1 <= rate,
        0 <= n,
        0 <= f0 <= f1,
    ensures
        f0 * n / rate <= f1 * n / rate,
{
}

proof fn lemma_div_mean_le_cap(s: int, k: int, cap: int) by (nonlinear_arith)
    requires
        1 <= k,
        0 <= s <= k * cap,
        0 <= cap,
    ensures
        0 <= s / k <= cap,
{
}

/// Querying the full spectrum range returns the mean of all magnitude bins.
pub proof fn lemma_full_range_is_mean(s: &SignalProcessing)
    requires
        s.wf(),
    ensures
        s.band_energy(0, s.samp_rate as int / 2) == mag_sum(
            s.fft_absolute@,
            0,
            s.fft_absolute@.len() - 1,
        ) / (s.fft_absolute@.len() as int),
{
    let rate = s.samp_rate as int;
    let n = s.block_len as int;
    assert(s.bin_of(0) == 0);
    assert((rate / 2) * n / rate == n / 2) by (nonlinear_arith)
        requires 2 <= rate && rate % 2 == 0 && 2 <= n && n % 2 == 0;
}

} // verus!
