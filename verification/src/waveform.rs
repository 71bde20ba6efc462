//! Waveform band state: a smoothed time-domain trace sized to the display
//! width, plus six fixed frequency-band energy scalars for layered
//! rendering.

use vstd::prelude::*;

use crate::fixed::ONE;
use crate::fixed::sabs;
use crate::fixed::tdiv;
use crate::processor::DECAY_FACTOR;
use crate::processor::sum_range_u;
use crate::renderer::Renderer;

verus! {

/// Per-band gain step: band `i` is scaled by `(i + 1) · 0.4` (Q16.16).
pub const GAIN_STEP: u32 = 26214;

/// Number of fixed frequency bands.
pub const BAND_COUNT: usize = 6;

/// The fixed frequency-bin range `[start, end)` and colour of band `i`,
/// tiered low to high: sub-bass red through treble indigo.
pub open spec fn band_def(i: int) -> (int, int, u32) {
    if i == 0 {
        (0, 4, 0x00FF0000u32)
    } else if i == 1 {
        (4, 12, 0x00FF7F00u32)
    } else if i == 2 {
        (12, 24, 0x00FFFF00u32)
    } else if i == 3 {
        (24, 40, 0x0000FF00u32)
    } else if i == 4 {
        (40, 56, 0x000000FFu32)
    } else {
        (56, 80, 0x004B0082u32)
    }
}

/// Mean of the raw magnitudes over band `i`'s bin range, clipped to the
/// available bins; an out-of-range band has zero energy.
pub open spec fn energy_spec(raw: Seq<u32>, start: int, end: int) -> int {
    let stop = if end <= raw.len() {
        end
    } else {
        raw.len() as int
    };
    let total = if start < stop {
        sum_range_u(raw, start, stop)
    } else {
        0
    };
    let denom = if end - start >= 1 {
        end - start
    } else {
        1
    };
    total / denom
}

/// The per-frame energy scalar of band `i`: its gain times its energy.
pub open spec fn factor_spec(raw: Seq<u32>, i: int) -> int {
    let (start, end, _) = band_def(i);
    (i + 1) * GAIN_STEP * energy_spec(raw, start, end) / (ONE as int)
}

/// 50/50 blend of the existing trace sample with an incoming sample
/// (truncating toward zero, as executed).
pub open spec fn blend_half(prev: int, incoming: int) -> int {
    tdiv(prev + incoming, 2)
}

/// Nearest-index resampling: trace column `x` of `width` reads source index
/// `x · len / width`.
pub open spec fn src_idx(x: int, width: int, len: int) -> int {
    x * len / width
}

/// One decay step of a trace sample: the magnitude shrinks by
/// `DECAY_FACTOR`, the sign is kept.
pub open spec fn trace_decay_spec(prev: int) -> int {
    tdiv(prev * DECAY_FACTOR, ONE as int)
}

/// One of the six band colours.
pub open spec fn is_band_colour(c: u32) -> bool {
    ||| c == band_def(0).2
    ||| c == band_def(1).2
    ||| c == band_def(2).2
    ||| c == band_def(3).2
    ||| c == band_def(4).2
    ||| c == band_def(5).2
}

/// A colour the waveform renderer may paint: the centre reference line or
/// one of the six band colours.
pub open spec fn is_wave_colour(c: u32) -> bool {
    ||| c == 0x00333333u32
    ||| is_band_colour(c)
}

/// How many trace columns a render draws from: the display width, capped at
/// the trace length.
pub open spec fn wave_count(width: int, len: int) -> int {
    if width < len {
        width
    } else {
        len
    }
}

/// The row of band `i`'s trace point at column `x` on a surface of the given
/// height: the band's vertical offset around the centre plus the sample
/// scaled by the band energy and the draw height.
pub open spec fn trace_point_y(
    trace: Seq<i32>,
    factors: Seq<u32>,
    i: int,
    x: int,
    height: int,
) -> int {
    height / 2 + (i - 3) * 60 + tdiv(
        (trace[x] as int) * (factors[i] as int) * ((height / 5) as int),
        0x1_0000_0000,
    )
}

/// The smoothed trace (one Q16.16 sample per display column) and the six
/// per-frame band energies.
pub struct WaveformDisplay {
    samples: Vec<i32>,
    width: usize,
    factors: Vec<u32>,
}

impl WaveformDisplay {
    /// The trace, one sample in `[-ONE, ONE]` per display column.
    pub closed spec fn view_trace(self) -> Seq<i32> {
        self.samples@
    }

    pub closed spec fn spec_width(self) -> usize {
        self.width
    }

    /// The six current band energy factors.
    pub closed spec fn view_factors(self) -> Seq<u32> {
        self.factors@
    }

    pub open spec fn wf(self) -> bool {
        &&& self.view_trace().len() == self.spec_width()
        &&& self.spec_width() <= 65535
        &&& forall|i: int|
            0 <= i < self.view_trace().len() ==> -(ONE as int) <= #[trigger] self.view_trace()[i]
                <= ONE as int
        &&& self.view_factors().len() == BAND_COUNT
        &&& forall|i: int| 0 <= i < self.view_factors().len() ==> #[trigger] self.view_factors()[i]
            <= 0x40000
    }

    /// A silent trace of the given display width, all band energies zero.
    pub fn new(width: usize) -> (r: Self)
        requires
            width <= 65535,
        ensures
            r.wf(),
            r.spec_width() == width,
            forall|i: int| 0 <= i < r.view_trace().len() ==> #[trigger] r.view_trace()[i] == 0,
            forall|i: int| 0 <= i < r.view_factors().len() ==> #[trigger] r.view_factors()[i] == 0,
    {
        WaveformDisplay {
            samples: vec![0i32; width],
            width,
            factors: vec![0u32; BAND_COUNT],
        }
    }

    /// Adopts a new display width: existing columns that still fit keep
    /// their (decayed) content, new columns start silent. An unchanged width
    /// leaves the state untouched.
    pub fn resize(&mut self, new_width: usize)
        requires
            old(self).wf(),
            new_width <= 65535,
        ensures
            final(self).wf(),
            final(self).spec_width() == new_width,
            final(self).view_trace().len() == new_width,
            final(self).view_factors() == old(self).view_factors(),
            forall|i: int|
                0 <= i < new_width && i < old(self).view_trace().len() ==> #[trigger] final(self).view_trace()[i] == old(self).view_trace()[i],
            forall|i: int|
                old(self).view_trace().len() <= i < new_width ==> #[trigger] final(self).view_trace()[i] == 0,
    {
        let ghost pre = *self;
        if new_width != self.width {
            self.samples.resize(new_width, 0i32);
            self.width = new_width;
            proof {
                assert forall|i: int| 0 <= i < self.samples@.len() implies -(ONE as int)
                    <= #[trigger] self.samples@[i] <= ONE as int by {
                    if i < pre.samples@.len() {
                        assert(-(ONE as int) <= pre.view_trace()[i] <= ONE as int);
                    } else {
                        assert(cloned(0i32, self.samples@[i]));
                        assert(self.samples@[i] == 0);
                    }
                }
                assert forall|i: int|
                    pre.samples@.len() <= i < self.samples@.len() implies #[trigger] self.samples@[i]
                    == 0 by {
                    assert(cloned(0i32, self.samples@[i]));
                }
                assert forall|i: int|
                    0 <= i < self.samples@.len() && i < pre.samples@.len() implies #[trigger] self
                    .samples@[i] == pre.samples@[i] by {}
            }
        }
    }

    /// Blends fresh time-domain samples into the trace (nearest-index
    /// resampled to the display width, 50/50 with the existing content; an
    /// empty block leaves the trace alone) and recomputes the six band
    /// energies from the raw magnitudes.
    pub fn update(&mut self, new_samples: &Vec<i32>, fft_output: &Vec<u32>)
        requires
            old(self).wf(),
            new_samples@.len() <= 0x100000,
            forall|k: int|
                0 <= k < new_samples@.len() ==> -(ONE as int) <= #[trigger] new_samples@[k]
                    <= ONE as int,
            forall|k: int| 0 <= k < fft_output@.len() ==> #[trigger] fft_output@[k] <= ONE,
        ensures
            final(self).wf(),
            final(self).spec_width() == old(self).spec_width(),
            final(self).view_trace().len() == old(self).view_trace().len(),
            new_samples@.len() == 0 ==> final(self).view_trace() == old(self).view_trace(),
            new_samples@.len() > 0 ==> forall|x: int|
                0 <= x < old(self).view_trace().len() ==> #[trigger] final(self).view_trace()[x]
                    == blend_half(
                    old(self).view_trace()[x] as int,
                    new_samples@[src_idx(
                        x,
                        old(self).spec_width() as int,
                        new_samples@.len() as int,
                    )] as int,
                ),
            final(self).view_factors().len() == BAND_COUNT,
            forall|i: int|
                0 <= i < BAND_COUNT ==> #[trigger] final(self).view_factors()[i] == factor_spec(
                    fft_output@,
                    i,
                ),
    {
        if new_samples.len() > 0 {
            let len = new_samples.len();
            let width = self.width;
            let mut x: usize = 0;
            while x < width
                invariant
                    self.wf(),
                    self.width == old(self).width,
                    self.factors@ == old(self).factors@,
                    self.samples@.len() == old(self).samples@.len(),
                    width == self.spec_width(),
                    width <= 65535,
                    1 <= len == new_samples@.len(),
                    len <= 0x100000,
                    forall|k: int|
                        0 <= k < new_samples@.len() ==> -(ONE as int) <= #[trigger] new_samples@[k]
                            <= ONE as int,
                    x <= width,
                    forall|k: int|
                        x <= k < width ==> #[trigger] self.samples@[k] == old(self).samples@[k],
                    forall|k: int|
                        0 <= k < x ==> #[trigger] self.samples@[k] == blend_half(
                            old(self).view_trace()[k] as int,
                            new_samples@[src_idx(k, width as int, len as int)] as int,
                        ),
                    forall|k: int|
                        0 <= k < x ==> -(ONE as int) <= #[trigger] self.samples@[k] <= ONE as int,
                decreases width - x,
            {
                proof {
                    assert(0 <= (x as int) * (len as int) <= 65535 * 0x100000 && (x as int) * (
                    len as int) < (width as int) * (len as int)) by (nonlinear_arith)
                        requires
                            0 <= x < width <= 65535,
                            1 <= len <= 0x100000,
                    ;
                    vstd::arithmetic::div_mod::lemma_multiply_divide_lt(
                        (x as int) * (len as int),
                        width as int,
                        len as int,
                    );
                    assert(-(ONE as int) <= self.view_trace()[x as int] <= ONE as int);
                    assert(self.samples@[x as int] == old(self).samples@[x as int]);
                }
                let idx = ((x as u64) * (len as u64) / (width as u64)) as usize;
                let s_old = self.samples[x];
                let s_new = new_samples[idx];
                let blended = crate::fixed::tdiv_i64(s_old as i64 + s_new as i64, 2);
                proof {
                    crate::fixed::lemma_tdiv_bound(
                        (s_old as i64 + s_new as i64) as int,
                        2,
                        ONE as int,
                    );
                }
                self.samples[x] = blended as i32;
                x = x + 1;
            }
        }
        let ghost mid = *self;
        let mut i: usize = 0;
        while i < BAND_COUNT
            invariant
                forall|k: int| 0 <= k < fft_output@.len() ==> #[trigger] fft_output@[k] <= ONE,
                i <= BAND_COUNT,
                self.width == mid.width,
                self.samples@ == mid.samples@,
                self.factors@.len() == mid.factors@.len(),
                mid.factors@.len() == BAND_COUNT,
                forall|k: int|
                    i <= k < BAND_COUNT ==> #[trigger] self.factors@[k] == mid.factors@[k],
                forall|k: int|
                    0 <= k < i ==> #[trigger] self.factors@[k] == factor_spec(fft_output@, k),
                forall|k: int| 0 <= k < i ==> #[trigger] self.factors@[k] <= 0x40000,
            decreases BAND_COUNT - i,
        {
            let (start, end, _colour) = band_def_at(i);
            let stop = if end <= fft_output.len() {
                end
            } else {
                fft_output.len()
            };
            let mut total: u64 = 0;
            let mut k: usize = start;
            while k < stop
                invariant
                    start <= k,
                    k <= stop || k == start,
                    stop <= fft_output@.len(),
                    stop <= 80,
                    forall|j: int| 0 <= j < fft_output@.len() ==> #[trigger] fft_output@[j] <= ONE,
                    start < stop ==> total == sum_range_u(fft_output@, start as int, k as int),
                    start >= stop ==> total == 0,
                    total <= (k as int - start as int) * 65536,
                decreases stop - k,
            {
                total = total + fft_output[k] as u64;
                k = k + 1;
            }
            let denom: u64 = (end - start) as u64;
            proof {
                assert(total as int <= (denom as int) * (ONE as int));
                vstd::arithmetic::div_mod::lemma_div_is_ordered(
                    total as int,
                    (denom as int) * (ONE as int),
                    denom as int,
                );
                vstd::arithmetic::div_mod::lemma_div_by_multiple(ONE as int, denom as int);
                vstd::arithmetic::mul::lemma_mul_is_commutative(denom as int, ONE as int);
            }
            let energy: u64 = total / denom;
            let gain: u64 = ((i + 1) as u64) * (GAIN_STEP as u64);
            proof {
                crate::fixed::lemma_mul_div_le(
                    gain as int,
                    energy as int,
                    0x40000,
                    ONE as int,
                    ONE as int,
                );
            }
            let factor: u32 = (gain * energy / 65536) as u32;
            self.factors[i] = factor;
            i = i + 1;
        }
    }

    /// Attenuates every trace sample toward zero by `DECAY_FACTOR`: the
    /// magnitude strictly decreases while non-zero and never grows, the sign
    /// is kept. Used when the input packet signals silence.
    pub fn decay(&mut self)
        requires
            old(self).wf(),
        ensures
            final(self).wf(),
            final(self).spec_width() == old(self).spec_width(),
            final(self).view_factors() == old(self).view_factors(),
            final(self).view_trace().len() == old(self).view_trace().len(),
            forall|i: int|
                0 <= i < final(self).view_trace().len() ==> #[trigger] final(self).view_trace()[i]
                    == trace_decay_spec(old(self).view_trace()[i] as int),
            forall|i: int|
                0 <= i < final(self).view_trace().len() ==> sabs(
                    #[trigger] final(self).view_trace()[i] as int,
                ) <= sabs(old(self).view_trace()[i] as int),
            forall|i: int|
                0 <= i < final(self).view_trace().len() ==> (old(self).view_trace()[i] != 0
                    ==> sabs(#[trigger] final(self).view_trace()[i] as int) < sabs(
                    old(self).view_trace()[i] as int,
                )),
    {
        let n = self.samples.len();
        let mut i: usize = 0;
        while i < n
            invariant
                self.wf(),
                self.width == old(self).width,
                self.factors@ == old(self).factors@,
                n == self.view_trace().len(),
                self.view_trace().len() == old(self).view_trace().len(),
                i <= n,
                forall|k: int|
                    i <= k < n ==> #[trigger] self.samples@[k] == old(self).samples@[k],
                forall|k: int|
                    0 <= k < i ==> #[trigger] self.samples@[k] == trace_decay_spec(
                        old(self).view_trace()[k] as int,
                    ),
                forall|k: int|
                    0 <= k < i ==> sabs(#[trigger] self.samples@[k] as int) <= sabs(
                        old(self).view_trace()[k] as int,
                    ),
                forall|k: int|
                    0 <= k < i ==> (old(self).view_trace()[k] != 0 ==> sabs(
                        #[trigger] self.samples@[k] as int,
                    ) < sabs(old(self).view_trace()[k] as int)),
                forall|k: int|
                    0 <= k < i ==> -(ONE as int) <= #[trigger] self.samples@[k] <= ONE as int,
            decreases n - i,
        {
            proof {
                assert(-(ONE as int) <= self.view_trace()[i as int] <= ONE as int);
                assert(self.samples@[i as int] == old(self).samples@[i as int]);
            }
            let s = self.samples[i];
            let d: i32 = if s >= 0 {
                crate::fixed::shrink_q16(s as u32, DECAY_FACTOR) as i32
            } else {
                -(crate::fixed::shrink_q16((-s) as u32, DECAY_FACTOR) as i32)
            };
            proof {
                if s >= 0 {
                    assert(trace_decay_spec(s as int) == (s as int) * (DECAY_FACTOR as int) / (
                    ONE as int));
                } else {
                    assert(trace_decay_spec(s as int) == -((-(s as int)) * (DECAY_FACTOR as int)
                        / (ONE as int))) by {
                        vstd::arithmetic::mul::lemma_mul_unary_negation(
                            s as int,
                            DECAY_FACTOR as int,
                        );
                    }
                }
            }
            self.samples[i] = d;
            i = i + 1;
        }
    }

    /// Read-only view of the smoothed trace.
    pub fn trace(&self) -> (r: &Vec<i32>)
        ensures
            r@ == self.view_trace(),
    {
        &self.samples
    }

    /// Current energy factor of band `i` (Q16.16).
    pub fn factor(&self, i: usize) -> (r: u32)
        requires
            i < self.view_factors().len(),
        ensures
            r == self.view_factors()[i as int],
    {
        self.factors[i]
    }

    /// Draws the centre reference line, then each band's trace as connected
    /// line segments scaled by the band energy, stacked symmetrically around
    /// the centre. Every pixel touched carries the centre-line colour or a
    /// band colour, everything else is untouched, and afterwards the whole
    /// centre row holds wave colours (the reference line, possibly
    /// overdrawn by band segments).
    pub fn render(&self, renderer: &mut Renderer)
        requires
            self.wf(),
            old(renderer).wf(),
        ensures
            final(renderer).wf(),
            final(renderer).spec_width() == old(renderer).spec_width(),
            final(renderer).spec_height() == old(renderer).spec_height(),
            forall|j: int|
                #![trigger final(renderer).spec_buffer()[j]]
                0 <= j < final(renderer).spec_buffer().len() ==> final(renderer).spec_buffer()[j]
                    == old(renderer).spec_buffer()[j] || is_wave_colour(
                    final(renderer).spec_buffer()[j],
                ),
            old(renderer).spec_height() >= 1 ==> forall|px: int|
                0 <= px < old(renderer).spec_width() ==> is_wave_colour(
                    #[trigger] final(renderer).spec_buffer()[crate::primitives::pix_idx(
                        old(renderer).spec_width() as int,
                        px,
                        old(renderer).spec_height() as int / 2,
                    )],
                ),
            forall|i: int, x: int|
                #![trigger trace_point_y(self.view_trace(), self.view_factors(), i, x, old(renderer).spec_height() as int)]
                (0 <= i < 6 && 0 <= x && x + 1 < wave_count(
                    old(renderer).spec_width() as int,
                    self.view_trace().len() as int,
                ) && 0 <= trace_point_y(
                    self.view_trace(),
                    self.view_factors(),
                    i,
                    x,
                    old(renderer).spec_height() as int,
                ) < old(renderer).spec_height()) ==> is_band_colour(
                    final(renderer).spec_buffer()[crate::primitives::pix_idx(
                        old(renderer).spec_width() as int,
                        x,
                        trace_point_y(
                            self.view_trace(),
                            self.view_factors(),
                            i,
                            x,
                            old(renderer).spec_height() as int,
                        ),
                    )],
                ),
    {
        let ghost entry_buf = renderer.spec_buffer();
        let (width, height) = renderer.dimensions();
        let center_y = height / 2;
        let wave_h = height / 5;
        let mut x: usize = 0;
        while x < width
            invariant
                old(renderer).wf(),
                renderer.wf(),
                renderer.spec_width() == old(renderer).spec_width(),
                renderer.spec_height() == old(renderer).spec_height(),
                renderer.spec_buffer().len() == entry_buf.len(),
                width == renderer.spec_width(),
                height == renderer.spec_height(),
                center_y == height / 2,
                x <= width,
                forall|j: int|
                    #![trigger renderer.spec_buffer()[j]]
                    0 <= j < renderer.spec_buffer().len() ==> renderer.spec_buffer()[j]
                        == entry_buf[j] || is_wave_colour(renderer.spec_buffer()[j]),
                height >= 1 ==> forall|px: int|
                    0 <= px < x ==> is_wave_colour(
                        #[trigger] renderer.spec_buffer()[crate::primitives::pix_idx(
                            width as int,
                            px,
                            center_y as int,
                        )],
                    ),
            decreases width - x,
        {
            proof {
                if height >= 1 {
                    crate::primitives::lemma_pix_in_bounds(
                        width as int,
                        height as int,
                        x as int,
                        center_y as int,
                    );
                }
            }
            renderer.set_pixel(x, center_y, 0x00333333);
            x = x + 1;
        }
        let count = if width < self.samples.len() {
            width
        } else {
            self.samples.len()
        };
        let mut i: usize = 0;
        while i < BAND_COUNT
            invariant
                self.wf(),
                old(renderer).wf(),
                renderer.wf(),
                renderer.spec_width() == old(renderer).spec_width(),
                renderer.spec_height() == old(renderer).spec_height(),
                renderer.spec_buffer().len() == entry_buf.len(),
                i <= BAND_COUNT,
                count <= self.view_trace().len(),
                count <= 65535,
                width == renderer.spec_width(),
                height == renderer.spec_height(),
                center_y == height / 2,
                center_y <= 32768,
                wave_h == height / 5,
                wave_h <= 13107,
                forall|j: int|
                    #![trigger renderer.spec_buffer()[j]]
                    0 <= j < renderer.spec_buffer().len() ==> renderer.spec_buffer()[j]
                        == entry_buf[j] || is_wave_colour(renderer.spec_buffer()[j]),
                height >= 1 ==> forall|px: int|
                    0 <= px < width ==> is_wave_colour(
                        #[trigger] renderer.spec_buffer()[crate::primitives::pix_idx(
                            width as int,
                            px,
                            center_y as int,
                        )],
                    ),
                count as int == wave_count(width as int, self.view_trace().len() as int),
                forall|i2: int, x2: int|
                    #![trigger trace_point_y(self.view_trace(), self.view_factors(), i2, x2, height as int)]
                    (0 <= i2 < i && 0 <= x2 && x2 + 1 < count && 0 <= trace_point_y(
                        self.view_trace(),
                        self.view_factors(),
                        i2,
                        x2,
                        height as int,
                    ) < height) ==> is_band_colour(
                        renderer.spec_buffer()[crate::primitives::pix_idx(
                            width as int,
                            x2,
                            trace_point_y(
                                self.view_trace(),
                                self.view_factors(),
                                i2,
                                x2,
                                height as int,
                            ),
                        )],
                    ),
            decreases BAND_COUNT - i,
        {
            let (_start, _end, colour) = band_def_at(i);
            let offset_y: isize = center_y as isize + (i as isize - 3) * 60;
            let factor = self.factors[i];
            if count >= 2 {
                let mut x: usize = 0;
                while x < count - 1
                    invariant
                        self.wf(),
                        old(renderer).wf(),
                        renderer.wf(),
                        renderer.spec_width() == old(renderer).spec_width(),
                        renderer.spec_height() == old(renderer).spec_height(),
                        renderer.spec_buffer().len() == entry_buf.len(),
                        2 <= count <= self.view_trace().len(),
                        count <= 65535,
                        x <= count - 1,
                        width == renderer.spec_width(),
                        height == renderer.spec_height(),
                        center_y == height / 2,
                        -33000 <= offset_y <= 33000,
                        offset_y as int == height as int / 2 + (i as int - 3) * 60,
                        wave_h == height / 5,
                        factor <= 0x40000,
                        factor == self.view_factors()[i as int],
                        0 <= i < BAND_COUNT,
                        colour == band_def(i as int).2,
                        is_wave_colour(colour),
                        count as int == wave_count(width as int, self.view_trace().len() as int),
                        forall|j: int|
                            #![trigger renderer.spec_buffer()[j]]
                            0 <= j < renderer.spec_buffer().len() ==> renderer.spec_buffer()[j]
                                == entry_buf[j] || is_wave_colour(renderer.spec_buffer()[j]),
                        height >= 1 ==> forall|px: int|
                            0 <= px < width ==> is_wave_colour(
                                #[trigger] renderer.spec_buffer()[crate::primitives::pix_idx(
                                    width as int,
                                    px,
                                    center_y as int,
                                )],
                            ),
                        forall|i2: int, x2: int|
                            #![trigger trace_point_y(self.view_trace(), self.view_factors(), i2, x2, height as int)]
                            (0 <= i2 < i && 0 <= x2 && x2 + 1 < count && 0 <= trace_point_y(
                                self.view_trace(),
                                self.view_factors(),
                                i2,
                                x2,
                                height as int,
                            ) < height) ==> is_band_colour(
                                renderer.spec_buffer()[crate::primitives::pix_idx(
                                    width as int,
                                    x2,
                                    trace_point_y(
                                        self.view_trace(),
                                        self.view_factors(),
                                        i2,
                                        x2,
                                        height as int,
                                    ),
                                )],
                            ),
                        forall|x2: int|
                            #![trigger trace_point_y(self.view_trace(), self.view_factors(), i as int, x2, height as int)]
                            (0 <= x2 < x && 0 <= trace_point_y(
                                self.view_trace(),
                                self.view_factors(),
                                i as int,
                                x2,
                                height as int,
                            ) < height) ==> is_band_colour(
                                renderer.spec_buffer()[crate::primitives::pix_idx(
                                    width as int,
                                    x2,
                                    trace_point_y(
                                        self.view_trace(),
                                        self.view_factors(),
                                        i as int,
                                        x2,
                                        height as int,
                                    ),
                                )],
                            ),
                    decreases count - 1 - x,
                {
                    proof {
                        assert(-(ONE as int) <= self.view_trace()[x as int] <= ONE as int);
                        assert(-(ONE as int) <= self.view_trace()[x as int + 1] <= ONE as int);
                    }
                    let y0 = offset_y + trace_offset(self.samples[x], factor, wave_h);
                    let y1 = offset_y + trace_offset(self.samples[x + 1], factor, wave_h);
                    proof {
                        assert(y0 as int == trace_point_y(
                            self.view_trace(),
                            self.view_factors(),
                            i as int,
                            x as int,
                            height as int,
                        ));
                        assert(is_band_colour(colour));
                    }
                    let ghost pre_buf = renderer.spec_buffer();
                    proof {
                        assert forall|i2: int, x2: int|
                            #![trigger trace_point_y(self.view_trace(), self.view_factors(), i2, x2, height as int)]
                            (0 <= i2 < i && 0 <= x2 && x2 + 1 < count && 0 <= trace_point_y(
                                self.view_trace(),
                                self.view_factors(),
                                i2,
                                x2,
                                height as int,
                            ) < height) implies is_band_colour(
                            pre_buf[crate::primitives::pix_idx(
                                width as int,
                                x2,
                                trace_point_y(
                                    self.view_trace(),
                                    self.view_factors(),
                                    i2,
                                    x2,
                                    height as int,
                                ),
                            )],
                        ) by {}
                        assert forall|x2: int|
                            #![trigger trace_point_y(self.view_trace(), self.view_factors(), i as int, x2, height as int)]
                            (0 <= x2 < x && 0 <= trace_point_y(
                                self.view_trace(),
                                self.view_factors(),
                                i as int,
                                x2,
                                height as int,
                            ) < height) implies is_band_colour(
                            pre_buf[crate::primitives::pix_idx(
                                width as int,
                                x2,
                                trace_point_y(
                                    self.view_trace(),
                                    self.view_factors(),
                                    i as int,
                                    x2,
                                    height as int,
                                ),
                            )],
                        ) by {}
                    }
                    renderer.draw_line(x, y0, x + 1, y1, colour);
                    proof {
                        assert forall|i2: int, x2: int|
                            #![trigger trace_point_y(self.view_trace(), self.view_factors(), i2, x2, height as int)]
                            (0 <= i2 < i && 0 <= x2 && x2 + 1 < count && 0 <= trace_point_y(
                                self.view_trace(),
                                self.view_factors(),
                                i2,
                                x2,
                                height as int,
                            ) < height) implies is_band_colour(
                            renderer.spec_buffer()[crate::primitives::pix_idx(
                                width as int,
                                x2,
                                trace_point_y(
                                    self.view_trace(),
                                    self.view_factors(),
                                    i2,
                                    x2,
                                    height as int,
                                ),
                            )],
                        ) by {
                            crate::primitives::lemma_pix_in_bounds(
                                width as int,
                                height as int,
                                x2,
                                trace_point_y(
                                    self.view_trace(),
                                    self.view_factors(),
                                    i2,
                                    x2,
                                    height as int,
                                ),
                            );
                        }
                        assert forall|x2: int|
                            #![trigger trace_point_y(self.view_trace(), self.view_factors(), i as int, x2, height as int)]
                            (0 <= x2 < x + 1 && 0 <= trace_point_y(
                                self.view_trace(),
                                self.view_factors(),
                                i as int,
                                x2,
                                height as int,
                            ) < height) implies is_band_colour(
                            renderer.spec_buffer()[crate::primitives::pix_idx(
                                width as int,
                                x2,
                                trace_point_y(
                                    self.view_trace(),
                                    self.view_factors(),
                                    i as int,
                                    x2,
                                    height as int,
                                ),
                            )],
                        ) by {
                            crate::primitives::lemma_pix_in_bounds(
                                width as int,
                                height as int,
                                x2,
                                trace_point_y(
                                    self.view_trace(),
                                    self.view_factors(),
                                    i as int,
                                    x2,
                                    height as int,
                                ),
                            );
                            if x2 == x as int {
                                assert(renderer.spec_buffer()[crate::primitives::pix_idx(
                                    width as int,
                                    x as int,
                                    y0 as int,
                                )] == colour);
                            }
                        }
                        if height >= 1 {
                            assert forall|px: int| 0 <= px < width implies is_wave_colour(
                                #[trigger] renderer.spec_buffer()[crate::primitives::pix_idx(
                                    width as int,
                                    px,
                                    center_y as int,
                                )],
                            ) by {
                                crate::primitives::lemma_pix_in_bounds(
                                    width as int,
                                    height as int,
                                    px,
                                    center_y as int,
                                );
                                assert(is_wave_colour(
                                    pre_buf[crate::primitives::pix_idx(
                                        width as int,
                                        px,
                                        center_y as int,
                                    )],
                                ));
                            }
                        }
                    }
                    x = x + 1;
                }
            }
            i = i + 1;
        }
    }
}

/// The run-time band table, matching `band_def`.
pub fn band_def_at(i: usize) -> (r: (usize, usize, u32))
    requires
        i < BAND_COUNT,
    ensures
        r.0 as int == band_def(i as int).0,
        r.1 as int == band_def(i as int).1,
        r.2 == band_def(i as int).2,
        r.0 + 4 <= r.1 <= 80,
{
    match i {
        0 => (0, 4, 0x00FF0000),
        1 => (4, 12, 0x00FF7F00),
        2 => (12, 24, 0x00FFFF00),
        3 => (24, 40, 0x0000FF00),
        4 => (40, 56, 0x000000FF),
        _ => (56, 80, 0x004B0082),
    }
}

/// Vertical pixel offset of one trace sample under a band energy factor and
/// the waveform draw height: `s · factor · wave_h`, brought down from the
/// squared Q16.16 scale.
fn trace_offset(s: i32, factor: u32, wave_h: usize) -> (r: isize)
    requires
        -(ONE as int) <= s as int <= ONE as int,
        factor <= 0x40000,
        wave_h <= 13107,
    ensures
        -66000 <= r <= 66000,
        r as int == tdiv((s as int) * (factor as int) * (wave_h as int), 0x1_0000_0000),
{
    proof {
        assert(-0x4_0000_0000int <= (s as int) * (factor as int) <= 0x4_0000_0000int)
            by (nonlinear_arith)
            requires
                -(ONE as int) <= s as int <= ONE as int,
                0 <= factor <= 0x40000,
        ;
        assert(-(0x4_0000_0000int * 13107) <= ((s as int) * (factor as int)) * (wave_h as int)
            <= 0x4_0000_0000int * 13107) by (nonlinear_arith)
            requires
                -0x4_0000_0000int <= (s as int) * (factor as int) <= 0x4_0000_0000int,
                0 <= wave_h <= 13107,
        ;
        assert((0x1_0000_0000int) * (66000 as int) >= 0x4_0000_0000int * 13107);
        crate::fixed::lemma_tdiv_bound(
            (s as int) * (factor as int) * (wave_h as int),
            0x1_0000_0000,
            66000,
        );
    }
    let prod: i64 = (s as i64) * (factor as i64) * (wave_h as i64);
    let r = crate::fixed::tdiv_i64(prod, 0x1_0000_0000);
    r as isize
}

} // verus!
