//! The spectral analysis engine.
//!
//! Per processing call: window + DC removal, forward real FFT (performed by
//! the caller on the prepared block, since the transform itself is
//! floating-point), alpha-max-plus-beta-min magnitude approximation,
//! logarithmic band mapping, exponential smoothing, and decay on silence.
//! All values are Q16.16 fixed point.

use vstd::prelude::*;

use crate::config::AudioConfig;
use crate::fixed::ONE;
use crate::fixed::sabs;
use crate::fixed::tdiv;

verus! {

/// Exponential smoothing weight of the previous spectrum value (≈0.85); the
/// attack weight is `ONE - SMOOTH_FACTOR` (≈0.15).
pub const SMOOTH_FACTOR: u32 = 55706;

/// Per-call attenuation of the smoothed spectrum under silence (≈0.95).
pub const DECAY_FACTOR: u32 = 62259;

/// Magnitude approximation `α·max(|re|,|im|) + β·min(|re|,|im|)` with
/// `α ≈ 0.96043387` and `β ≈ 0.39782473`.
pub const MAG_ALPHA: u32 = 62943;

/// See `MAG_ALPHA`.
pub const MAG_BETA: u32 = 26072;

/// Fixed display gain, `8^0.6 ≈ 3.4822`.
pub const GAIN_GAMMA: u32 = 228209;

/// Largest magnitude accepted for one FFT bin component (`2^40`); callers
/// clamp the transform output into this range when converting to Q16.16.
pub const MAX_BIN: i64 = 0x100_0000_0000;

/// One complex FFT output bin, real and imaginary part in Q16.16.
#[derive(Clone, Copy)]
pub struct FftBin {
    pub re: i64,
    pub im: i64,
}

/// One spectrum bar's slice of the FFT output: the inclusive bin range it
/// averages and its Q16.16 loudness compensation.
pub struct BandInfo {
    pub bin_low: usize,
    pub bin_high: usize,
    pub compensation: u32,
}

/// Compensation tiers counteracting the low-frequency energy bias: bars 0–7
/// ramp 0.2→0.5, bars 8–31 ramp 0.5→1.0, bars from 32 ramp 1.0→2.0 per 32
/// bars (Q16.16).
pub open spec fn comp_spec(i: int) -> int {
    if i <= 7 {
        13107 + 19661 * i / 8
    } else if i <= 31 {
        32768 + 32768 * (i - 8) / 24
    } else {
        65536 + 65536 * (i - 32) / 32
    }
}

/// A band table fits the configuration: one entry per bar, every bin range
/// non-empty and inside the first `fft_size / 2` bins, compensation from the
/// fixed tiers.
pub open spec fn band_wf(cfg: AudioConfig, bands: Seq<BandInfo>) -> bool {
    &&& bands.len() == cfg.bar_count
    &&& forall|j: int|
        0 <= j < bands.len() ==> {
            &&& (#[trigger] bands[j]).bin_low < bands[j].bin_high
            &&& bands[j].bin_high <= cfg.fft_size / 2 - 1
            &&& bands[j].compensation == comp_spec(j)
        }
}

/// Sum of `s[a..b]`.
pub open spec fn sum_range_u(s: Seq<u32>, a: int, b: int) -> int
    decreases b - a,
{
    if a >= b {
        0
    } else {
        sum_range_u(s, a, b - 1) + s[b - 1]
    }
}

/// Sum of the first `n` samples.
pub open spec fn sum_prefix(s: Seq<i32>, n: int) -> int
    decreases n,
{
    if n <= 0 {
        0
    } else {
        sum_prefix(s, n - 1) + s[n - 1]
    }
}

/// How many samples of a block enter the FFT window: all of them, capped at
/// `fft_size`.
pub open spec fn prep_count(fft: int, len: int) -> int {
    if len >= fft {
        fft
    } else {
        len
    }
}

/// DC mean of the first `count` samples (truncating division, as executed).
pub open spec fn dc_mean(s: Seq<i32>, count: int) -> int {
    tdiv(sum_prefix(s, count), count)
}

/// Sample `k` of the prepared FFT input: DC-removed and windowed.
pub open spec fn windowed(s: Seq<i32>, w: Seq<u32>, count: int, k: int) -> int {
    tdiv((s[k] - dc_mean(s, count)) * w[k], ONE as int)
}

/// The alpha-max-plus-beta-min magnitude of one bin, normalised by `norm`
/// (≈`ONE/sqrt(fft_size)`), multiplied by the fixed gain and clamped to
/// `[0, ONE]`.
pub open spec fn mag_spec(re: int, im: int, norm: int) -> int {
    let a = sabs(re);
    let b = sabs(im);
    let hi = if a >= b {
        a
    } else {
        b
    };
    let lo = if a >= b {
        b
    } else {
        a
    };
    let approx = (MAG_ALPHA * hi + MAG_BETA * lo) / (ONE as int);
    let scaled = approx * norm / (ONE as int);
    let gained = scaled * GAIN_GAMMA / (ONE as int);
    if gained >= ONE {
        ONE as int
    } else {
        gained
    }
}

/// Mean of the raw magnitudes over the inclusive bin range `[lo, hi]`.
pub open spec fn band_average(out: Seq<u32>, lo: int, hi: int) -> int {
    sum_range_u(out, lo, hi + 1) / (hi + 1 - lo)
}

/// A band average after compensation, clamped to `[0, ONE]`.
pub open spec fn compensated_spec(avg: int, comp: int) -> int {
    let c = avg * comp / (ONE as int);
    if c >= ONE {
        ONE as int
    } else {
        c
    }
}

/// Exponential smoothing: previous value weighted `SMOOTH_FACTOR`, incoming
/// value weighted `ONE - SMOOTH_FACTOR`.
pub open spec fn blend_spec(prev: int, incoming: int) -> int {
    (prev * SMOOTH_FACTOR + incoming * (ONE - SMOOTH_FACTOR)) / (ONE as int)
}

/// One silence-decay step.
pub open spec fn decay_spec(prev: int) -> int {
    prev * DECAY_FACTOR / (ONE as int)
}

/// The spectral engine: reusable buffers, the band mapping cache, and the
/// smoothed spectrum state.
pub struct AudioProcessor {
    config: AudioConfig,
    window: Vec<u32>,
    fft_output: Vec<u32>,
    smoothed: Vec<u32>,
    bands: Vec<BandInfo>,
    sample_rate: u32,
    norm: u32,
}

impl AudioProcessor {
    /// The configuration fixed at construction.
    pub closed spec fn spec_config(self) -> AudioConfig {
        self.config
    }

    /// The window function, one Q16.16 weight per input sample.
    pub closed spec fn spec_window(self) -> Seq<u32> {
        self.window@
    }

    /// Raw magnitude output of the latest processed block, `fft_size / 2`
    /// values in `[0, ONE]`.
    pub closed spec fn view_raw(self) -> Seq<u32> {
        self.fft_output@
    }

    /// The smoothed spectrum, one value in `[0, ONE]` per bar.
    pub closed spec fn view_spectrum(self) -> Seq<u32> {
        self.smoothed@
    }

    /// The cached band mapping (empty until a sample rate is observed).
    pub closed spec fn spec_bands(self) -> Seq<BandInfo> {
        self.bands@
    }

    /// The last observed sample rate, 0 before the first observation.
    pub closed spec fn spec_rate(self) -> u32 {
        self.sample_rate
    }

    /// The Q16.16 normalisation factor `≈ ONE / sqrt(fft_size)`.
    pub closed spec fn spec_norm(self) -> u32 {
        self.norm
    }

    pub open spec fn wf(self) -> bool {
        &&& self.spec_config().wf()
        &&& self.spec_window().len() == self.spec_config().fft_size
        &&& forall|k: int|
            0 <= k < self.spec_window().len() ==> #[trigger] self.spec_window()[k] <= ONE
        &&& self.view_raw().len() == self.spec_config().fft_size / 2
        &&& forall|k: int| 0 <= k < self.view_raw().len() ==> #[trigger] self.view_raw()[k] <= ONE
        &&& self.view_spectrum().len() == self.spec_config().bar_count
        &&& forall|k: int|
            0 <= k < self.view_spectrum().len() ==> #[trigger] self.view_spectrum()[k] <= ONE
        &&& (self.spec_bands().len() == 0 || band_wf(self.spec_config(), self.spec_bands()))
        &&& 1 <= self.spec_norm() <= ONE
    }

    /// A fresh engine: zeroed spectra, a flat (all-`ONE`) window until the
    /// caller supplies a shaped one, no band mapping until the first rate
    /// observation.
    pub fn new(config: AudioConfig) -> (r: Self)
        requires
            config.wf(),
        ensures
            r.wf(),
            r.spec_config() == config,
            r.spec_rate() == 0,
            r.spec_bands().len() == 0,
            forall|k: int| 0 <= k < r.view_raw().len() ==> #[trigger] r.view_raw()[k] == 0,
            forall|k: int| 0 <= k < r.view_spectrum().len() ==> #[trigger] r.view_spectrum()[k] == 0,
            forall|k: int| 0 <= k < r.spec_window().len() ==> #[trigger] r.spec_window()[k] == ONE,
    {
        let window: Vec<u32> = vec![ONE; config.fft_size];
        let fft_output: Vec<u32> = vec![0u32; config.fft_size / 2];
        let smoothed: Vec<u32> = vec![0u32; config.bar_count];
        let s = crate::fixed::isqrt_u64((config.fft_size as u64) * 65536 * 65536);
        proof {
            assert(s >= 0x20000) by (nonlinear_arith)
                requires
                    (s as int + 1) * (s as int + 1) > (4 as int) * 65536 * 65536,
                    s >= 0,
            ;
            assert(s <= 0x1000000) by (nonlinear_arith)
                requires
                    (s as int) * (s as int) <= (65536 as int) * 65536 * 65536,
                    s >= 0,
            ;
            assert((0x1_0000_0000u64 as int) / (s as int) <= ONE) by {
                vstd::arithmetic::div_mod::lemma_div_is_ordered_by_denominator(
                    0x1_0000_0000,
                    0x20000,
                    s as int,
                );
            }
            assert((0x1_0000_0000u64 as int) / (s as int) >= 1) by {
                vstd::arithmetic::div_mod::lemma_div_is_ordered_by_denominator(
                    0x1_0000_0000,
                    s as int,
                    0x1000000,
                );
            }
        }
        let norm = (0x1_0000_0000u64 / s) as u32;
        AudioProcessor {
            config,
            window,
            fft_output,
            smoothed,
            bands: Vec::new(),
            sample_rate: 0,
            norm,
        }
    }

    /// Adopts a caller-supplied window function (e.g. a Hann table scaled to
    /// Q16.16). Weights above `ONE` are clamped; a table of the wrong length
    /// is rejected and leaves the engine unchanged.
    pub fn set_window(&mut self, w: &Vec<u32>) -> (r: bool)
        requires
            old(self).wf(),
        ensures
            final(self).wf(),
            r == (w@.len() == old(self).spec_config().fft_size),
            final(self).spec_config() == old(self).spec_config(),
            final(self).spec_rate() == old(self).spec_rate(),
            final(self).spec_norm() == old(self).spec_norm(),
            final(self).spec_bands() == old(self).spec_bands(),
            final(self).view_raw() == old(self).view_raw(),
            final(self).view_spectrum() == old(self).view_spectrum(),
            r ==> final(self).spec_window().len() == w@.len() && (forall|k: int|
                0 <= k < w@.len() ==> #[trigger] final(self).spec_window()[k] == (if w@[k] >= ONE {
                    ONE as int
                } else {
                    w@[k] as int
                })),
            !r ==> final(self).spec_window() == old(self).spec_window(),
    {
        if w.len() != self.config.fft_size {
            return false;
        }
        let mut nw: Vec<u32> = Vec::new();
        let mut k: usize = 0;
        while k < w.len()
            invariant
                k <= w@.len(),
                nw@.len() == k,
                forall|j: int|
                    0 <= j < k ==> #[trigger] nw@[j] == (if w@[j] >= ONE {
                        ONE as int
                    } else {
                        w@[j] as int
                    }),
                forall|j: int| 0 <= j < k ==> #[trigger] nw@[j] <= ONE,
            decreases w@.len() - k,
        {
            let v = w[k];
            if v >= ONE {
                nw.push(ONE);
            } else {
                nw.push(v);
            }
            k = k + 1;
        }
        self.window = nw;
        true
    }

    /// Read-only view of the smoothed spectrum, valid until the next
    /// processing call.
    pub fn spectrum(&self) -> (r: &Vec<u32>)
        ensures
            r@ == self.view_spectrum(),
    {
        &self.smoothed
    }

    /// Read-only view of the raw magnitudes of the latest block.
    pub fn fft_output(&self) -> (r: &Vec<u32>)
        ensures
            r@ == self.view_raw(),
    {
        &self.fft_output
    }

    /// Number of entries in the cached band mapping.
    pub fn band_count(&self) -> (r: usize)
        ensures
            r == self.spec_bands().len(),
    {
        self.bands.len()
    }

    /// Inclusive FFT bin range of bar `i`.
    pub fn band_range(&self, i: usize) -> (r: (usize, usize))
        requires
            i < self.spec_bands().len(),
        ensures
            r.0 == self.spec_bands()[i as int].bin_low,
            r.1 == self.spec_bands()[i as int].bin_high,
    {
        (self.bands[i].bin_low, self.bands[i].bin_high)
    }

    /// Handles a silent interval: observes the sample rate, then attenuates
    /// every smoothed spectrum entry by `DECAY_FACTOR` — positive entries
    /// strictly decrease, zero entries stay zero. No other state changes.
    pub fn process_silence(&mut self, sample_rate: u32)
        requires
            old(self).wf(),
        ensures
            final(self).wf(),
            final(self).spec_config() == old(self).spec_config(),
            final(self).spec_window() == old(self).spec_window(),
            final(self).spec_norm() == old(self).spec_norm(),
            final(self).view_raw() == old(self).view_raw(),
            sample_rate != old(self).spec_rate() && sample_rate >= 1 ==> final(self).spec_rate()
                == sample_rate && band_wf(final(self).spec_config(), final(self).spec_bands())
                && bands_from(
                final(self).spec_config(),
                sample_rate as int,
                final(self).spec_bands(),
            ),
            !(sample_rate != old(self).spec_rate() && sample_rate >= 1) ==> final(self).spec_rate()
                == old(self).spec_rate() && final(self).spec_bands() == old(self).spec_bands(),
            final(self).view_spectrum().len() == old(self).view_spectrum().len(),
            forall|i: int|
                0 <= i < final(self).view_spectrum().len() ==> #[trigger] final(self).view_spectrum()[i] == decay_spec(old(self).view_spectrum()[i] as int),
            forall|i: int|
                0 <= i < final(self).view_spectrum().len() ==> #[trigger] final(self).view_spectrum()[i] <= old(self).view_spectrum()[i],
            forall|i: int|
                0 <= i < final(self).view_spectrum().len() ==> (old(self).view_spectrum()[i] >= 1
                    ==> #[trigger] final(self).view_spectrum()[i] < old(self).view_spectrum()[i]),
    {
        self.observe_rate(sample_rate);
        let ghost mid = *self;
        let n = self.smoothed.len();
        let ghost pre = self.smoothed@;
        let mut i: usize = 0;
        while i < n
            invariant
                i <= n,
                self.config == mid.config,
                self.window@ == mid.window@,
                self.fft_output@ == mid.fft_output@,
                self.bands@ == mid.bands@,
                self.sample_rate == mid.sample_rate,
                self.norm == mid.norm,
                self.smoothed@.len() == n,
                pre.len() == n,
                forall|k: int| 0 <= k < n ==> #[trigger] pre[k] <= ONE,
                forall|k: int|
                    i <= k < n ==> #[trigger] self.smoothed@[k] == pre[k],
                forall|k: int|
                    0 <= k < i ==> #[trigger] self.smoothed@[k] == decay_spec(pre[k] as int),
                forall|k: int| 0 <= k < i ==> #[trigger] self.smoothed@[k] <= pre[k],
                forall|k: int|
                    0 <= k < i ==> (pre[k] >= 1 ==> #[trigger] self.smoothed@[k] < pre[k]),
                forall|k: int| 0 <= k < i ==> #[trigger] self.smoothed@[k] <= ONE,
            decreases n - i,
        {
            let v = self.smoothed[i];
            let d = crate::fixed::shrink_q16(v, DECAY_FACTOR);
            self.smoothed[i] = d;
            i = i + 1;
        }
    }

    /// Builds the FFT input for a block of mono samples: observes the sample
    /// rate, then returns the first `fft_size` samples DC-removed, windowed
    /// and zero-padded. The spectra are untouched; the caller transforms the
    /// returned block and hands the complex bins to `process`.
    pub fn prepare_input(&mut self, samples: &Vec<i32>, sample_rate: u32) -> (out: Vec<i32>)
        requires
            old(self).wf(),
            1 <= samples@.len() <= old(self).spec_config().buffer_size,
            forall|k: int|
                0 <= k < samples@.len() ==> -(ONE as int) <= #[trigger] samples@[k] <= ONE as int,
        ensures
            final(self).wf(),
            final(self).spec_config() == old(self).spec_config(),
            final(self).spec_window() == old(self).spec_window(),
            final(self).spec_norm() == old(self).spec_norm(),
            final(self).view_raw() == old(self).view_raw(),
            final(self).view_spectrum() == old(self).view_spectrum(),
            sample_rate != old(self).spec_rate() && sample_rate >= 1 ==> final(self).spec_rate()
                == sample_rate && band_wf(final(self).spec_config(), final(self).spec_bands())
                && bands_from(
                final(self).spec_config(),
                sample_rate as int,
                final(self).spec_bands(),
            ),
            !(sample_rate != old(self).spec_rate() && sample_rate >= 1) ==> final(self).spec_rate()
                == old(self).spec_rate() && final(self).spec_bands() == old(self).spec_bands(),
            out@.len() == old(self).spec_config().fft_size,
            forall|k: int|
                0 <= k < prep_count(
                    old(self).spec_config().fft_size as int,
                    samples@.len() as int,
                ) ==> #[trigger] out@[k] == windowed(
                    samples@,
                    old(self).spec_window(),
                    prep_count(old(self).spec_config().fft_size as int, samples@.len() as int),
                    k,
                ),
            forall|k: int|
                prep_count(old(self).spec_config().fft_size as int, samples@.len() as int) <= k
                    < out@.len() ==> #[trigger] out@[k] == 0,
            forall|k: int|
                0 <= k < out@.len() ==> -2 * (ONE as int) <= #[trigger] out@[k] <= 2 * (ONE as int),
    {
        let fft_size = self.config.fft_size;
        self.observe_rate(sample_rate);
        let count = if samples.len() < fft_size {
            samples.len()
        } else {
            fft_size
        };
        let mut sum: i64 = 0;
        let mut k: usize = 0;
        while k < count
            invariant
                k <= count,
                1 <= count <= samples@.len(),
                count <= fft_size <= 65536,
                forall|j: int|
                    0 <= j < samples@.len() ==> -(ONE as int) <= #[trigger] samples@[j]
                        <= ONE as int,
                sum == sum_prefix(samples@, k as int),
                -(k as int) * (ONE as int) <= sum as int <= (k as int) * (ONE as int),
            decreases count - k,
        {
            sum = sum + samples[k] as i64;
            k = k + 1;
        }
        proof {
            crate::fixed::lemma_tdiv_bound(sum as int, count as int, ONE as int);
        }
        let mean = crate::fixed::tdiv_i64(sum, count as i64);
        let mut out: Vec<i32> = Vec::new();
        let mut i: usize = 0;
        while i < fft_size
            invariant
                self.wf(),
                fft_size == self.spec_config().fft_size,
                i <= fft_size,
                out@.len() == i,
                1 <= count <= samples@.len(),
                count <= fft_size,
                forall|j: int|
                    0 <= j < samples@.len() ==> -(ONE as int) <= #[trigger] samples@[j]
                        <= ONE as int,
                mean == dc_mean(samples@, count as int),
                -(ONE as int) <= mean as int <= ONE as int,
                forall|j: int|
                    0 <= j < i && j < count ==> #[trigger] out@[j] == windowed(
                        samples@,
                        self.spec_window(),
                        count as int,
                        j,
                    ),
                forall|j: int| count <= j < i ==> #[trigger] out@[j] == 0,
                forall|j: int|
                    0 <= j < i ==> -2 * (ONE as int) <= #[trigger] out@[j] <= 2 * (ONE as int),
            decreases fft_size - i,
        {
            if i < count {
                let centered: i64 = samples[i] as i64 - mean;
                let w: u32 = self.window[i];
                proof {
                    assert(-2 * (ONE as int) * (ONE as int) <= (centered as int) * (w as int) <= 2
                        * (ONE as int) * (ONE as int)) by (nonlinear_arith)
                        requires
                            -2 * (ONE as int) <= centered as int <= 2 * (ONE as int),
                            0 <= w <= ONE,
                    ;
                }
                let prod: i64 = centered * (w as i64);
                proof {
                    crate::fixed::lemma_tdiv_bound(prod as int, ONE as int, 2 * (ONE as int));
                }
                let v = crate::fixed::tdiv_i64(prod, 65536);
                out.push(v as i32);
            } else {
                out.push(0);
            }
            i = i + 1;
        }
        out
    }

    /// Consumes the complex bins of the transformed block: recomputes every
    /// raw magnitude with the alpha-max-plus-beta-min approximation, then
    /// folds the band averages into the smoothed spectrum.
    pub fn process(&mut self, bins: &Vec<FftBin>)
        requires
            old(self).wf(),
            bins@.len() >= old(self).spec_config().fft_size / 2,
            forall|k: int|
                0 <= k < bins@.len() ==> -MAX_BIN <= (#[trigger] bins@[k]).re <= MAX_BIN && -MAX_BIN
                    <= bins@[k].im <= MAX_BIN,
        ensures
            final(self).wf(),
            final(self).spec_config() == old(self).spec_config(),
            final(self).spec_window() == old(self).spec_window(),
            final(self).spec_norm() == old(self).spec_norm(),
            final(self).spec_rate() == old(self).spec_rate(),
            final(self).spec_bands() == old(self).spec_bands(),
            final(self).view_raw().len() == old(self).spec_config().fft_size / 2,
            forall|i: int|
                0 <= i < final(self).view_raw().len() ==> #[trigger] final(self).view_raw()[i]
                    == mag_spec(bins@[i].re as int, bins@[i].im as int, old(self).spec_norm() as int),
            final(self).view_spectrum().len() == old(self).view_spectrum().len(),
            old(self).spec_bands().len() == 0 ==> final(self).view_spectrum() == old(
                self,
            ).view_spectrum(),
            forall|i: int|
                0 <= i < old(self).spec_bands().len() ==> #[trigger] final(self).view_spectrum()[i]
                    == blend_spec(
                    old(self).view_spectrum()[i] as int,
                    compensated_spec(
                        band_average(
                            final(self).view_raw(),
                            old(self).spec_bands()[i].bin_low as int,
                            old(self).spec_bands()[i].bin_high as int,
                        ),
                        old(self).spec_bands()[i].compensation as int,
                    ),
                ),
    {
        let half = self.config.fft_size / 2;
        let mut i: usize = 0;
        while i < half
            invariant
                self.wf(),
                self.config == old(self).config,
                self.window@ == old(self).window@,
                self.smoothed@ == old(self).smoothed@,
                self.bands@ == old(self).bands@,
                self.sample_rate == old(self).sample_rate,
                self.norm == old(self).norm,
                self.fft_output@.len() == old(self).fft_output@.len(),
                half == self.spec_config().fft_size / 2,
                bins@.len() >= half,
                forall|k: int|
                    0 <= k < bins@.len() ==> -MAX_BIN <= (#[trigger] bins@[k]).re <= MAX_BIN
                        && -MAX_BIN <= bins@[k].im <= MAX_BIN,
                i <= half,
                forall|j: int|
                    0 <= j < i ==> #[trigger] self.fft_output@[j] == mag_spec(
                        bins@[j].re as int,
                        bins@[j].im as int,
                        self.spec_norm() as int,
                    ),
                forall|j: int| 0 <= j < i ==> #[trigger] self.fft_output@[j] <= ONE,
            decreases half - i,
        {
            let bin = bins[i];
            let a: i64 = if bin.re >= 0 {
                bin.re
            } else {
                -bin.re
            };
            let b: i64 = if bin.im >= 0 {
                bin.im
            } else {
                -bin.im
            };
            let hi: u64 = if a >= b {
                a as u64
            } else {
                b as u64
            };
            let lo: u64 = if a >= b {
                b as u64
            } else {
                a as u64
            };
            proof {
                crate::fixed::lemma_mul_div_le(
                    MAG_ALPHA as int,
                    hi as int,
                    65536,
                    MAX_BIN as int,
                    65536,
                );
                crate::fixed::lemma_mul_div_le(
                    MAG_BETA as int,
                    lo as int,
                    65536,
                    MAX_BIN as int,
                    65536,
                );
            }
            let weighted: u64 = (MAG_ALPHA as u64) * hi + (MAG_BETA as u64) * lo;
            proof {
                vstd::arithmetic::div_mod::lemma_div_is_ordered(
                    weighted as int,
                    0x200_0000_0000_0000,
                    65536,
                );
            }
            let approx: u64 = weighted / 65536;
            proof {
                crate::fixed::lemma_mul_div_le(
                    approx as int,
                    self.spec_norm() as int,
                    0x2000_0000_0000,
                    ONE as int,
                    65536,
                );
            }
            let scaled: u64 = approx * (self.norm as u64) / 65536;
            proof {
                crate::fixed::lemma_mul_div_le(
                    scaled as int,
                    GAIN_GAMMA as int,
                    0x2000_0000_0000,
                    GAIN_GAMMA as int,
                    65536,
                );
            }
            let gained: u64 = scaled * (GAIN_GAMMA as u64) / 65536;
            let m: u32 = if gained >= 65536 {
                ONE
            } else {
                gained as u32
            };
            self.fft_output[i] = m;
            i = i + 1;
        }
        self.update_bands();
    }

    /// Folds the band averages of the raw magnitudes into the smoothed
    /// spectrum: per bar, the compensated average is blended in with the
    /// fixed smoothing factor. With no band mapping yet, the spectrum is
    /// untouched.
    fn update_bands(&mut self)
        requires
            old(self).wf(),
        ensures
            final(self).wf(),
            final(self).spec_config() == old(self).spec_config(),
            final(self).spec_window() == old(self).spec_window(),
            final(self).spec_norm() == old(self).spec_norm(),
            final(self).spec_rate() == old(self).spec_rate(),
            final(self).spec_bands() == old(self).spec_bands(),
            final(self).view_raw() == old(self).view_raw(),
            final(self).view_spectrum().len() == old(self).view_spectrum().len(),
            old(self).spec_bands().len() == 0 ==> final(self).view_spectrum() == old(
                self,
            ).view_spectrum(),
            forall|i: int|
                0 <= i < old(self).spec_bands().len() ==> #[trigger] final(self).view_spectrum()[i]
                    == blend_spec(
                    old(self).view_spectrum()[i] as int,
                    compensated_spec(
                        band_average(
                            old(self).view_raw(),
                            old(self).spec_bands()[i].bin_low as int,
                            old(self).spec_bands()[i].bin_high as int,
                        ),
                        old(self).spec_bands()[i].compensation as int,
                    ),
                ),
    {
        if self.bands.len() == 0 {
            return ;
        }
        let n = self.bands.len();
        let mut i: usize = 0;
        while i < n
            invariant
                self.wf(),
                self.config == old(self).config,
                self.window@ == old(self).window@,
                self.fft_output@ == old(self).fft_output@,
                self.bands@ == old(self).bands@,
                self.sample_rate == old(self).sample_rate,
                self.norm == old(self).norm,
                n == self.spec_bands().len(),
                n >= 1,
                band_wf(self.spec_config(), self.spec_bands()),
                n == self.view_spectrum().len(),
                self.view_spectrum().len() == old(self).view_spectrum().len(),
                i <= n,
                forall|j: int|
                    i <= j < n ==> #[trigger] self.smoothed@[j] == old(self).smoothed@[j],
                forall|j: int|
                    0 <= j < i ==> #[trigger] self.smoothed@[j] == blend_spec(
                        old(self).view_spectrum()[j] as int,
                        compensated_spec(
                            band_average(
                                self.view_raw(),
                                self.spec_bands()[j].bin_low as int,
                                self.spec_bands()[j].bin_high as int,
                            ),
                            self.spec_bands()[j].compensation as int,
                        ),
                    ),
                forall|j: int| 0 <= j < i ==> #[trigger] self.smoothed@[j] <= ONE,
            decreases n - i,
        {
            let lo = self.bands[i].bin_low;
            let hi = self.bands[i].bin_high;
            let comp = self.bands[i].compensation;
            proof {
                assert(comp_spec(i as int) <= 0x100000);
            }
            let mut sum: u64 = 0;
            let mut k: usize = lo;
            while k <= hi
                invariant
                    self.wf(),
                    lo <= k <= hi + 1,
                    lo < hi < self.view_raw().len(),
                    hi <= 65536,
                    sum == sum_range_u(self.view_raw(), lo as int, k as int),
                    sum <= (k - lo) as int * (ONE as int),
                decreases hi + 1 - k,
            {
                sum = sum + self.fft_output[k] as u64;
                k = k + 1;
            }
            let denom: u64 = (hi - lo + 1) as u64;
            proof {
                vstd::arithmetic::div_mod::lemma_div_is_ordered(
                    sum as int,
                    denom as int * (ONE as int),
                    denom as int,
                );
                vstd::arithmetic::div_mod::lemma_div_by_multiple(ONE as int, denom as int);
                vstd::arithmetic::mul::lemma_mul_is_commutative(denom as int, ONE as int);
                vstd::arithmetic::div_mod::lemma_div_pos_is_pos(sum as int, denom as int);
            }
            let avg: u64 = sum / denom;
            proof {
                crate::fixed::lemma_mul_div_le(avg as int, comp as int, ONE as int, 0x100000, 65536);
            }
            let c64: u64 = avg * (comp as u64) / 65536;
            let cmp: u32 = if c64 >= 65536 {
                ONE
            } else {
                c64 as u32
            };
            let prev = self.smoothed[i];
            let b64: u64 = (prev as u64) * (SMOOTH_FACTOR as u64) + (cmp as u64) * ((65536
                - SMOOTH_FACTOR) as u64);
            proof {
                vstd::arithmetic::div_mod::lemma_div_is_ordered(
                    b64 as int,
                    0x1_0000_0000,
                    65536,
                );
            }
            let nv: u32 = (b64 / 65536) as u32;
            self.smoothed[i] = nv;
            i = i + 1;
        }
    }

    /// Observes the device sample rate; a change (to a usable, non-zero
    /// rate) rebuilds the band mapping.
    fn observe_rate(&mut self, sample_rate: u32)
        requires
            old(self).wf(),
        ensures
            final(self).wf(),
            final(self).spec_config() == old(self).spec_config(),
            final(self).spec_window() == old(self).spec_window(),
            final(self).spec_norm() == old(self).spec_norm(),
            final(self).view_raw() == old(self).view_raw(),
            final(self).view_spectrum() == old(self).view_spectrum(),
            sample_rate != old(self).spec_rate() && sample_rate >= 1 ==> final(self).spec_rate()
                == sample_rate && band_wf(final(self).spec_config(), final(self).spec_bands())
                && bands_from(
                final(self).spec_config(),
                sample_rate as int,
                final(self).spec_bands(),
            ),
            !(sample_rate != old(self).spec_rate() && sample_rate >= 1) ==> final(self).spec_rate()
                == old(self).spec_rate() && final(self).spec_bands() == old(self).spec_bands(),
    {
        if sample_rate != self.sample_rate && sample_rate >= 1 {
            self.sample_rate = sample_rate;
            self.precalculate_bands(sample_rate);
        }
    }

    /// Rebuilds the logarithmic band mapping for the given sample rate:
    /// per-bar centre frequencies geometrically spaced from 20 Hz to
    /// 20 000 Hz, a bandwidth factor widening with the bar index, bin indices
    /// clamped into `[0, fft_size/2 - 1]` with `bin_high > bin_low`, and the
    /// fixed compensation tiers.
    fn precalculate_bands(&mut self, sample_rate: u32)
        requires
            old(self).wf(),
            sample_rate >= 1,
        ensures
            final(self).wf(),
            final(self).spec_config() == old(self).spec_config(),
            final(self).spec_window() == old(self).spec_window(),
            final(self).spec_norm() == old(self).spec_norm(),
            final(self).spec_rate() == old(self).spec_rate(),
            final(self).view_raw() == old(self).view_raw(),
            final(self).view_spectrum() == old(self).view_spectrum(),
            band_wf(final(self).spec_config(), final(self).spec_bands()),
            bands_from(final(self).spec_config(), sample_rate as int, final(self).spec_bands()),
    {
        let bar_count = self.config.bar_count;
        let half = self.config.fft_size / 2;
        let fft_size = self.config.fft_size;
        // Q16.16 per-step ratio of the geometric frequency progression
        // 20 Hz … 20 000 Hz over `bar_count` bars.
        let ratio = nth_root_q16(bar_count - 1);
        self.bands.clear();
        let mut i: usize = 0;
        while i < bar_count
            invariant
                self.config.wf(),
                self.config == old(self).config,
                self.window@ == old(self).window@,
                self.fft_output@ == old(self).fft_output@,
                self.smoothed@ == old(self).smoothed@,
                self.sample_rate == old(self).sample_rate,
                self.norm == old(self).norm,
                bar_count == self.config.bar_count,
                fft_size == self.config.fft_size,
                half == fft_size / 2,
                2 <= half,
                sample_rate >= 1,
                65536 <= ratio <= 65536000,
                i <= bar_count,
                self.bands@.len() == i,
                ratio_ok(ratio as int, (bar_count - 1) as nat),
                forall|j: int|
                    0 <= j < i ==> {
                        &&& (#[trigger] self.bands@[j]).bin_low < self.bands@[j].bin_high
                        &&& self.bands@[j].bin_high <= half - 1
                        &&& self.bands@[j].compensation == comp_spec(j)
                    },
                forall|j: int|
                    0 <= j < i ==> #[trigger] self.bands@[j] == band_spec(
                        self.config,
                        sample_rate as int,
                        ratio as int,
                        j,
                    ),
            decreases bar_count - i,
        {
            // centre frequency 20·(1000)^(i/(bar_count-1)) Hz, Q16.16
            let pow = pow_q16_sat(ratio, i);
            let fc: u64 = 20 * pow;
            let frac_raw: u64 = (i as u64) * 65536 / ((bar_count - 1) as u64);
            let frac_q16: u64 = if frac_raw < 65536 {
                frac_raw
            } else {
                65536
            };
            proof {
                crate::fixed::lemma_mul_div_le(45875, frac_q16 as int, 45875, 65536, 65536);
            }
            let bw: u64 = 19661 + 45875 * frac_q16 / 65536;
            proof {
                crate::fixed::lemma_mul_div_le(fc as int, 65536, 2621440000, 65536, 65536 + bw);
                crate::fixed::lemma_mul_div_cancel_le(fc as int, 65536, 65536 + bw);
                crate::fixed::lemma_mul_div_le(fc as int, 65536 + bw, 2621440000, 131072, 65536);
            }
            let f_low: u64 = fc * 65536 / (65536 + bw);
            let f_high: u64 = fc * (65536 + bw) / 65536;
            let rate_q16: u64 = (sample_rate as u64) * 65536;
            proof {
                crate::fixed::lemma_mul_div_le(
                    f_low as int,
                    fft_size as int,
                    2621440000,
                    65536,
                    rate_q16 as int,
                );
                crate::fixed::lemma_mul_div_le(
                    f_high as int,
                    fft_size as int,
                    0x2_0000_0000,
                    65536,
                    rate_q16 as int,
                );
            }
            let bin_low_raw: u64 = (f_low * (fft_size as u64) + rate_q16 / 2) / rate_q16;
            let bin_high_raw: u64 = (f_high * (fft_size as u64) + rate_q16 / 2) / rate_q16;
            let bin_low: usize = if bin_low_raw < (half - 2) as u64 {
                bin_low_raw as usize
            } else {
                half - 2
            };
            let raised: usize = if bin_high_raw > (bin_low + 1) as u64 {
                if bin_high_raw < (half - 1) as u64 {
                    bin_high_raw as usize
                } else {
                    half - 1
                }
            } else {
                bin_low + 1
            };
            let bin_high: usize = if raised < half - 1 {
                raised
            } else {
                half - 1
            };
            let compensation = comp_of(i);
            proof {
                let entry = band_spec(self.config, sample_rate as int, ratio as int, i as int);
                assert(bin_low == entry.bin_low && bin_high == entry.bin_high && compensation
                    == entry.compensation);
            }
            self.bands.push(BandInfo { bin_low, bin_high, compensation });
            i = i + 1;
        }
        proof {
            let rt = ratio as int;
            assert(ratio_ok(rt, (bar_count - 1) as nat) && forall|j: int|
                0 <= j < self.bands@.len() ==> #[trigger] self.bands@[j] == band_spec(
                    self.config,
                    sample_rate as int,
                    rt,
                    j,
                ));
        }
    }
}

/// A prefix of zeros sums to zero.
pub proof fn lemma_sum_prefix_zero(s: Seq<i32>, n: int)
    requires
        n <= s.len(),
        forall|k: int| 0 <= k < n ==> #[trigger] s[k] == 0,
    ensures
        sum_prefix(s, n) == 0,
    decreases n,
{
    if n > 0 {
        lemma_sum_prefix_zero(s, n - 1);
    }
}

/// A range of zeros sums to zero.
pub proof fn lemma_sum_range_zero(s: Seq<u32>, a: int, b: int)
    requires
        0 <= a,
        b <= s.len(),
        forall|k: int| a <= k < b ==> #[trigger] s[k] == 0,
    ensures
        sum_range_u(s, a, b) == 0,
    decreases b - a,
{
    if a < b {
        lemma_sum_range_zero(s, a, b - 1);
    }
}

/// An all-zero sample block leaves no trace in the prepared FFT input: its
/// DC mean is zero and every windowed sample is zero, whatever the window.
pub proof fn lemma_zero_block_prepares_zero(s: Seq<i32>, w: Seq<u32>, count: int)
    requires
        1 <= count <= s.len(),
        forall|k: int| 0 <= k < count ==> #[trigger] s[k] == 0,
    ensures
        dc_mean(s, count) == 0,
        forall|k: int| 0 <= k < count ==> #[trigger] windowed(s, w, count, k) == 0,
{
    lemma_sum_prefix_zero(s, count);
    assert(dc_mean(s, count) == 0) by {
        vstd::arithmetic::div_mod::lemma_div_of0(count);
    }
    assert forall|k: int| 0 <= k < count implies #[trigger] windowed(s, w, count, k) == 0 by {
        assert((s[k] - dc_mean(s, count)) * w[k] == 0) by {
            vstd::arithmetic::mul::lemma_mul_by_zero_is_zero(w[k] as int);
        }
        vstd::arithmetic::div_mod::lemma_div_of0(ONE as int);
    }
}

/// An all-zero transform yields zero raw magnitudes, and blending the
/// resulting zero band averages into an already-zero smoothed spectrum keeps
/// it at exactly zero: no energy, no ringing.
pub proof fn lemma_zero_bins_zero_spectrum(raw: Seq<u32>, lo: int, hi: int, comp: int, norm: int)
    requires
        0 <= lo,
        hi < raw.len(),
        lo < hi,
        forall|k: int| 0 <= k < raw.len() ==> #[trigger] raw[k] == 0,
        comp >= 0,
    ensures
        mag_spec(0, 0, norm) == 0,
        band_average(raw, lo, hi) == 0,
        compensated_spec(0, comp) == 0,
        blend_spec(0, 0) == 0,
{
    assert(mag_spec(0, 0, norm) == 0) by {
        vstd::arithmetic::div_mod::lemma_div_of0(ONE as int);
        vstd::arithmetic::mul::lemma_mul_by_zero_is_zero(norm);
        vstd::arithmetic::mul::lemma_mul_by_zero_is_zero(GAIN_GAMMA as int);
    }
    lemma_sum_range_zero(raw, lo, hi + 1);
    assert(band_average(raw, lo, hi) == 0) by {
        vstd::arithmetic::div_mod::lemma_div_of0(hi + 1 - lo);
    }
    assert(compensated_spec(0, comp) == 0) by {
        vstd::arithmetic::mul::lemma_mul_by_zero_is_zero(comp);
        vstd::arithmetic::div_mod::lemma_div_of0(ONE as int);
    }
    assert(blend_spec(0, 0) == 0) by {
        vstd::arithmetic::div_mod::lemma_div_of0(ONE as int);
    }
}

/// One saturating Q16.16 multiply step of the power ladder.
pub open spec fn sat_step(acc: int, base: int) -> int {
    let n = acc * base / 65536;
    if n > 131072000 {
        131072000
    } else if n < 1 {
        1
    } else {
        n
    }
}

/// Saturating Q16.16 power `base^e`, clamped into `[1, 2000·ONE]`.
pub open spec fn pow_sat_spec(base: int, e: nat) -> int
    decreases e,
{
    if e == 0 {
        65536
    } else {
        sat_step(pow_sat_spec(base, (e - 1) as nat), base)
    }
}

/// `pow_sat_spec` of 1.0 is 1.0 at every exponent.
proof fn lemma_pow_sat_one(e: nat)
    ensures
        pow_sat_spec(65536, e) == 65536,
    decreases e,
{
    if e > 0 {
        lemma_pow_sat_one((e - 1) as nat);
    }
}

/// `r` is a valid per-step ratio of the geometric 20 Hz … 20 kHz progression
/// over `n` steps: its `n`-th saturating power does not exceed 1000·ONE, and
/// it is maximal with that property (or pinned at the upper search bound).
pub open spec fn ratio_ok(r: int, n: nat) -> bool {
    &&& 65536 <= r <= 65536000
    &&& pow_sat_spec(r, n) <= 65536000
    &&& (r == 65536000 || pow_sat_spec(r + 1, n) > 65536000)
}

/// The band table entry of bar `i`: centre frequency `20·ratio^i` Hz
/// (Q16.16), a bandwidth factor widening with the bar index, the frequency
/// edges converted to FFT bins (rounded), clamped into the valid range with
/// `bin_high > bin_low`, and the fixed compensation tier.
pub open spec fn band_spec(cfg: AudioConfig, rate: int, ratio: int, i: int) -> BandInfo {
    let half = cfg.fft_size as int / 2;
    let pow = pow_sat_spec(ratio, i as nat);
    let fc = 20 * pow;
    let frac_raw = i * 65536 / (cfg.bar_count as int - 1);
    let frac = if frac_raw < 65536 {
        frac_raw
    } else {
        65536
    };
    let bw = 19661 + 45875 * frac / 65536;
    let f_low = fc * 65536 / (65536 + bw);
    let f_high = fc * (65536 + bw) / 65536;
    let rq = rate * 65536;
    let bl_raw = (f_low * cfg.fft_size + rq / 2) / rq;
    let bh_raw = (f_high * cfg.fft_size + rq / 2) / rq;
    let bl = if bl_raw < half - 2 {
        bl_raw
    } else {
        half - 2
    };
    let raised = if bh_raw > bl + 1 {
        if bh_raw < half - 1 {
            bh_raw
        } else {
            half - 1
        }
    } else {
        bl + 1
    };
    let bh = if raised < half - 1 {
        raised
    } else {
        half - 1
    };
    BandInfo { bin_low: bl as usize, bin_high: bh as usize, compensation: comp_spec(i) as u32 }
}

/// The whole band table derives from one valid geometric ratio: entry `j`
/// is exactly `band_spec` of that ratio.
pub open spec fn bands_from(cfg: AudioConfig, rate: int, bands: Seq<BandInfo>) -> bool {
    exists|ratio: int|
        #![trigger ratio_ok(ratio, (cfg.bar_count - 1) as nat)]
        ratio_ok(ratio, (cfg.bar_count - 1) as nat) && forall|j: int|
            0 <= j < bands.len() ==> #[trigger] bands[j] == band_spec(cfg, rate, ratio, j)
}

/// Compensation factor of bar `i` (Q16.16), from the fixed tiers.
fn comp_of(i: usize) -> (r: u32)
    requires
        i < 512,
    ensures
        r == comp_spec(i as int),
{
    if i <= 7 {
        13107 + (19661 * (i as u32)) / 8
    } else if i <= 31 {
        32768 + (32768 * ((i - 8) as u32)) / 24
    } else {
        65536 + (65536 * ((i - 32) as u32)) / 32
    }
}

/// Saturating Q16.16 power: `base^e`, capped at 2000·ONE — safely above the
/// 1000·ONE search target, so saturation never masquerades as a hit.
fn pow_q16_sat(base: u64, e: usize) -> (r: u64)
    requires
        65536 <= base <= 65536000,
    ensures
        1 <= r <= 131072000,
        r == pow_sat_spec(base as int, e as nat),
{
    let mut acc: u64 = 65536;
    let mut j: usize = 0;
    while j < e
        invariant
            1 <= acc <= 131072000,
            65536 <= base <= 65536000,
            j <= e,
            acc == pow_sat_spec(base as int, j as nat),
        decreases e - j,
    {
        proof {
            crate::fixed::lemma_mul_div_le(acc as int, base as int, 131072000, 65536000, 65536);
        }
        let next = acc * base / 65536;
        if next > 131072000 {
            acc = 131072000;
        } else if next < 1 {
            acc = 1;
        } else {
            acc = next;
        }
        j = j + 1;
    }
    acc
}

/// The Q16.16 `n`-th root of 1000 by binary search over the saturating
/// power: the result is the largest ratio whose `n`-th power stays at or
/// under 1000·ONE, which spaces the per-bar centre frequencies
/// geometrically.
fn nth_root_q16(n: usize) -> (r: u64)
    requires
        1 <= n,
    ensures
        ratio_ok(r as int, n as nat),
{
    proof {
        lemma_pow_sat_one(n as nat);
    }
    let mut lo: u64 = 65536;
    let mut hi: u64 = 65536000;
    while lo < hi
        invariant
            65536 <= lo <= hi <= 65536000,
            pow_sat_spec(lo as int, n as nat) <= 65536000,
            hi == 65536000 || pow_sat_spec(hi as int + 1, n as nat) > 65536000,
        decreases hi - lo,
    {
        let mid = lo + (hi - lo + 1) / 2;
        if pow_q16_sat(mid, n) <= 65536000 {
            lo = mid;
        } else {
            hi = mid - 1;
        }
    }
    lo
}

} // verus!
