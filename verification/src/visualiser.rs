//! The pipeline coordinator: per frame it drains one packet, mixes to mono,
//! drives the spectral engine and both visual states, and renders.
//!
//! The forward FFT runs outside the library, so consuming a non-silent
//! packet is a two-step exchange: `update` mixes and hands back the prepared
//! FFT input (or finishes on its own for silence), and `finish_update` takes
//! the complex bins and drives the visual states.

use vstd::prelude::*;

use crate::config::AudioConfig;
use crate::fixed::ONE;
use crate::fixed::tdiv;
use crate::packet::AudioPacket;
use crate::processor::AudioProcessor;
use crate::processor::FftBin;
use crate::processor::MAX_BIN;
use crate::renderer::Renderer;
use crate::spectrum::SpectrumAnalyzer;
use crate::waveform::WaveformDisplay;

verus! {

/// Sum over the first `c` channels of frame `i` (interleaved samples;
/// indices past the end count as zero, matching a short final frame).
pub open spec fn chan_sum(s: Seq<i32>, ch: int, i: int, c: int) -> int
    decreases c,
{
    if c <= 0 {
        0
    } else {
        let idx = i * ch + (c - 1);
        chan_sum(s, ch, i, c - 1) + (if 0 <= idx < s.len() {
            s[idx] as int
        } else {
            0
        })
    }
}

/// Mono sample `i`: the channel mean of frame `i`, truncated toward zero.
pub open spec fn mono_spec(s: Seq<i32>, ch: int, i: int) -> int {
    tdiv(chan_sum(s, ch, i, ch), ch)
}

/// How many mono frames a packet yields: whole frames, capped at the
/// configured buffer size.
pub open spec fn mono_len(samples_len: int, ch: int, buffer_size: int) -> int {
    let frames = samples_len / ch;
    if frames <= buffer_size {
        frames
    } else {
        buffer_size
    }
}

/// A colour the particle pass may paint: channels in the fixed bright
/// ranges (red 180–254, green 100–199, blue 200–254).
pub open spec fn is_particle_colour(c: u32) -> bool {
    &&& 180 <= ((c >> 16) & 0xFF) < 255
    &&& 100 <= ((c >> 8) & 0xFF) < 200
    &&& 200 <= (c & 0xFF) < 255
}

/// A colour one rendered frame may paint over the previous content: a
/// waveform colour, a spectrum-bar gradient colour, a particle colour, or
/// the white of the clock glyphs.
pub open spec fn frame_colour_ok(c: u32, lut: Seq<u32>) -> bool {
    ||| crate::waveform::is_wave_colour(c)
    ||| lut.contains(c)
    ||| is_particle_colour(c)
    ||| c == 0x00FFFFFFu32
}

/// The coordinator: the spectral engine, the two visual state machines, the
/// fixed configuration, the observed window size, and the mono block held
/// between `update` and `finish_update`.
pub struct Visualiser {
    processor: AudioProcessor,
    spectrum: SpectrumAnalyzer,
    waveform: WaveformDisplay,
    config: AudioConfig,
    window_dims: (usize, usize),
    pending_mono: Vec<i32>,
}

impl Visualiser {
    /// The spectral engine.
    pub closed spec fn proc(self) -> AudioProcessor {
        self.processor
    }

    /// The spectrum bar state.
    pub closed spec fn bars(self) -> SpectrumAnalyzer {
        self.spectrum
    }

    /// The waveform band state.
    pub closed spec fn wave(self) -> WaveformDisplay {
        self.waveform
    }

    pub closed spec fn spec_config(self) -> AudioConfig {
        self.config
    }

    /// The window size observed at the last render.
    pub closed spec fn spec_dims(self) -> (usize, usize) {
        self.window_dims
    }

    /// The mono block awaiting its transform.
    pub closed spec fn spec_pending(self) -> Seq<i32> {
        self.pending_mono@
    }

    pub open spec fn wf(self) -> bool {
        &&& self.spec_config().wf()
        &&& self.proc().wf()
        &&& self.proc().spec_config() == self.spec_config()
        &&& self.bars().wf()
        &&& self.bars().spec_bar_count() == self.spec_config().bar_count
        &&& self.wave().wf()
        &&& self.spec_dims().0 <= 65535
        &&& self.spec_dims().1 <= 65535
        &&& self.spec_pending().len() <= self.spec_config().buffer_size
        &&& forall|k: int|
            0 <= k < self.spec_pending().len() ==> -(ONE as int) <= #[trigger] self.spec_pending()[k]
                <= ONE as int
    }

    /// A fresh pipeline for the given configuration and initial display
    /// width.
    pub fn new(config: AudioConfig, initial_width: usize) -> (r: Self)
        requires
            config.wf(),
            initial_width <= 65535,
        ensures
            r.wf(),
            r.spec_config() == config,
            r.proc().spec_rate() == 0,
            r.proc().spec_bands().len() == 0,
            forall|i: int|
                0 <= i < r.proc().view_spectrum().len() ==> #[trigger] r.proc().view_spectrum()[i]
                    == 0,
            forall|i: int|
                0 <= i < r.proc().view_raw().len() ==> #[trigger] r.proc().view_raw()[i] == 0,
            r.bars().spec_bar_count() == config.bar_count,
            forall|i: int|
                0 <= i < r.bars().view_levels().len() ==> #[trigger] r.bars().view_levels()[i] == 0,
            forall|i: int|
                0 <= i < r.bars().view_velocities().len() ==> #[trigger] r.bars().view_velocities()[i]
                    == 0,
            r.bars().view_lut().len() == 0,
            r.bars().spec_window_height() == 0,
            r.wave().spec_width() == initial_width,
            r.wave().view_trace().len() == initial_width,
            forall|i: int|
                0 <= i < r.wave().view_trace().len() ==> #[trigger] r.wave().view_trace()[i] == 0,
            forall|i: int|
                0 <= i < r.wave().view_factors().len() ==> #[trigger] r.wave().view_factors()[i]
                    == 0,
            r.spec_dims() == (initial_width, 0usize),
            r.spec_pending().len() == 0,
    {
        Visualiser {
            processor: AudioProcessor::new(config),
            spectrum: SpectrumAnalyzer::new(config.bar_count),
            waveform: WaveformDisplay::new(initial_width),
            config,
            window_dims: (initial_width, 0),
            pending_mono: Vec::new(),
        }
    }

    /// Hands the engine a caller-computed window table (e.g. a Hann window
    /// scaled to Q16.16); see `AudioProcessor::set_window`.
    pub fn set_window(&mut self, w: &Vec<u32>) -> (r: bool)
        requires
            old(self).wf(),
        ensures
            final(self).wf(),
            final(self).spec_config() == old(self).spec_config(),
            r == (w@.len() == old(self).spec_config().fft_size),
            r ==> final(self).proc().spec_window().len() == w@.len() && (forall|k: int|
                0 <= k < w@.len() ==> #[trigger] final(self).proc().spec_window()[k] == (if w@[k]
                    >= crate::fixed::ONE {
                    crate::fixed::ONE as int
                } else {
                    w@[k] as int
                })),
            !r ==> final(self).proc().spec_window() == old(self).proc().spec_window(),
            final(self).proc().view_spectrum() == old(self).proc().view_spectrum(),
            final(self).proc().view_raw() == old(self).proc().view_raw(),
            final(self).bars() == old(self).bars(),
            final(self).wave() == old(self).wave(),
    {
        self.processor.set_window(w)
    }

    /// Read-only view of the engine's smoothed spectrum.
    pub fn spectrum(&self) -> (r: &Vec<u32>)
        ensures
            r@ == self.proc().view_spectrum(),
    {
        self.processor.spectrum()
    }

    /// Interleaved samples to mono: per frame the channel mean, at most
    /// `buffer_size` frames.
    pub fn mix_to_mono(&self, samples: &Vec<i32>, channels: u16) -> (r: Vec<i32>)
        requires
            self.wf(),
            channels >= 1,
            samples@.len() <= usize::MAX,
            forall|k: int|
                0 <= k < samples@.len() ==> -(ONE as int) <= #[trigger] samples@[k] <= ONE as int,
        ensures
            r@.len() == mono_len(
                samples@.len() as int,
                channels as int,
                self.spec_config().buffer_size as int,
            ),
            forall|i: int|
                0 <= i < r@.len() ==> #[trigger] r@[i] == mono_spec(
                    samples@,
                    channels as int,
                    i,
                ),
            forall|i: int| 0 <= i < r@.len() ==> -(ONE as int) <= #[trigger] r@[i] <= ONE as int,
    {
        let ch = channels as usize;
        let frame_count = samples.len() / ch;
        let count = if frame_count < self.config.buffer_size {
            frame_count
        } else {
            self.config.buffer_size
        };
        let mut mono: Vec<i32> = Vec::new();
        let mut i: usize = 0;
        while i < count
            invariant
                1 <= ch <= 65536,
                samples@.len() <= usize::MAX,
                count <= self.spec_config().buffer_size <= 0x100000,
                (count as int) <= (samples@.len() as int) / (ch as int),
                forall|k: int|
                    0 <= k < samples@.len() ==> -(ONE as int) <= #[trigger] samples@[k]
                        <= ONE as int,
                i <= count,
                mono@.len() == i,
                forall|k: int|
                    0 <= k < i ==> #[trigger] mono@[k] == mono_spec(samples@, ch as int, k),
                forall|k: int| 0 <= k < i ==> -(ONE as int) <= #[trigger] mono@[k] <= ONE as int,
            decreases count - i,
        {
            let mut sum: i64 = 0;
            let mut c: usize = 0;
            proof {
                assert(0 <= (i as int) * (ch as int) <= 0x100000 * 65536) by (nonlinear_arith)
                    requires
                        0 <= i < 0x100000,
                        1 <= ch <= 65536,
                ;
            }
            while c < ch
                invariant
                    1 <= ch <= 65536,
                    i < 0x100000,
                    0 <= (i as int) * (ch as int) <= 0x100000 * 65536,
                    samples@.len() <= usize::MAX,
                    forall|k: int|
                        0 <= k < samples@.len() ==> -(ONE as int) <= #[trigger] samples@[k]
                            <= ONE as int,
                    c <= ch,
                    sum == chan_sum(samples@, ch as int, i as int, c as int),
                    -(c as int) * (ONE as int) <= sum as int <= (c as int) * (ONE as int),
                decreases ch - c,
            {
                let idx_big: u64 = (i as u64) * (ch as u64) + (c as u64);
                if idx_big < samples.len() as u64 {
                    let idx = idx_big as usize;
                    sum = sum + samples[idx] as i64;
                }
                c = c + 1;
            }
            proof {
                crate::fixed::lemma_tdiv_bound(sum as int, ch as int, ONE as int);
            }
            let m = crate::fixed::tdiv_i64(sum, ch as i64);
            mono.push(m as i32);
            i = i + 1;
        }
        mono
    }

    /// Consumes one packet. A silent packet (or one that yields no whole
    /// mono frame) is handled completely: the smoothed spectrum and the
    /// waveform trace decay and the bars take a physics step; the result is
    /// `None`. Otherwise the packet is mixed to mono, the engine prepares
    /// the FFT input, and the caller must transform it and call
    /// `finish_update` with the bins.
    pub fn update(&mut self, packet: &AudioPacket) -> (r: Option<Vec<i32>>)
        requires
            old(self).wf(),
            packet.wf(),
            packet.samples@.len() <= usize::MAX,
        ensures
            final(self).wf(),
            final(self).spec_config() == old(self).spec_config(),
            r is None <==> (packet.is_silent || mono_len(
                packet.samples@.len() as int,
                packet.channels as int,
                old(self).spec_config().buffer_size as int,
            ) == 0),
            r is None ==> {
                &&& forall|i: int|
                    0 <= i < final(self).proc().view_spectrum().len() ==> #[trigger] final(self).proc().view_spectrum()[i] == crate::processor::decay_spec(
                        old(self).proc().view_spectrum()[i] as int,
                    )
                &&& forall|i: int|
                    0 <= i < final(self).proc().view_spectrum().len() ==> #[trigger] final(self).proc().view_spectrum()[i] <= old(self).proc().view_spectrum()[i]
                &&& forall|i: int|
                    0 <= i < final(self).proc().view_spectrum().len() ==> (old(self).proc().view_spectrum()[i] >= 1 ==> #[trigger] final(self).proc().view_spectrum()[i] < old(self).proc().view_spectrum()[i])
                &&& final(self).proc().view_raw() == old(self).proc().view_raw()
                &&& forall|i: int|
                    0 <= i < final(self).bars().view_levels().len() ==> #[trigger] final(self).bars().view_levels()[i] == crate::spectrum::bar_step(
                        old(self).bars().view_levels()[i] as int,
                        old(self).bars().view_velocities()[i] as int,
                        final(self).proc().view_spectrum()[i] as int,
                    ).0
                &&& forall|i: int|
                    0 <= i < final(self).bars().view_velocities().len() ==> #[trigger] final(self).bars().view_velocities()[i] == crate::spectrum::bar_step(
                        old(self).bars().view_levels()[i] as int,
                        old(self).bars().view_velocities()[i] as int,
                        final(self).proc().view_spectrum()[i] as int,
                    ).1
                &&& final(self).bars().spec_window_height() == old(self).spec_dims().1
                &&& final(self).wave().spec_width() == old(self).wave().spec_width()
                &&& final(self).wave().view_trace().len() == old(self).wave().view_trace().len()
            },
            (r is None && packet.is_silent) ==> final(self).wave().view_factors() == old(self).wave().view_factors(),
            (r is None && !packet.is_silent) ==> forall|i: int|
                0 <= i < crate::waveform::BAND_COUNT ==> #[trigger] final(self).wave().view_factors()[i] == crate::waveform::factor_spec(
                    old(self).proc().view_raw(),
                    i,
                ),
            (r is None && packet.is_silent) ==> forall|i: int|
                0 <= i < final(self).wave().view_trace().len() ==> #[trigger] final(self).wave().view_trace()[i] == crate::waveform::trace_decay_spec(
                    old(self).wave().view_trace()[i] as int,
                ),
            r is Some ==> {
                &&& final(self).spec_pending().len() == mono_len(
                    packet.samples@.len() as int,
                    packet.channels as int,
                    old(self).spec_config().buffer_size as int,
                )
                &&& forall|i: int|
                    0 <= i < final(self).spec_pending().len() ==> #[trigger] final(self).spec_pending()[i] == mono_spec(packet.samples@, packet.channels as int, i)
                &&& r->0@.len() == old(self).spec_config().fft_size
                &&& forall|k: int|
                    0 <= k < crate::processor::prep_count(
                        old(self).spec_config().fft_size as int,
                        final(self).spec_pending().len() as int,
                    ) ==> #[trigger] r->0@[k] == crate::processor::windowed(
                        final(self).spec_pending(),
                        old(self).proc().spec_window(),
                        crate::processor::prep_count(
                            old(self).spec_config().fft_size as int,
                            final(self).spec_pending().len() as int,
                        ),
                        k,
                    )
                &&& forall|k: int|
                    crate::processor::prep_count(
                        old(self).spec_config().fft_size as int,
                        final(self).spec_pending().len() as int,
                    ) <= k < r->0@.len() ==> #[trigger] r->0@[k] == 0
                &&& final(self).proc().view_spectrum() == old(self).proc().view_spectrum()
                &&& final(self).proc().view_raw() == old(self).proc().view_raw()
                &&& final(self).wave().view_trace() == old(self).wave().view_trace()
                &&& final(self).bars() == old(self).bars()
            },
    {
        if packet.is_silent {
            self.processor.process_silence(packet.sample_rate);
            self.waveform.decay();
            self.step_bars();
            None
        } else {
            let mono = self.mix_to_mono(&packet.samples, packet.channels);
            if mono.len() == 0 {
                self.processor.process_silence(packet.sample_rate);
                let fft_ref = self.processor.fft_output();
                proof {
                    assert forall|k: int|
                        0 <= k < self.processor.view_raw().len() implies #[trigger] self.processor
                        .view_raw()[k] <= ONE by {}
                }
                self.waveform.update(&mono, fft_ref);
                self.step_bars();
                None
            } else {
                let prepared = self.processor.prepare_input(&mono, packet.sample_rate);
                self.pending_mono = mono;
                Some(prepared)
            }
        }
    }

    /// Takes the complex bins of the transformed block: the engine computes
    /// raw magnitudes and smooths the bands, the waveform blends the pending
    /// mono block and recomputes its band energies, and the bars take a
    /// physics step against the fresh spectrum.
    pub fn finish_update(&mut self, bins: &Vec<FftBin>)
        requires
            old(self).wf(),
            bins@.len() >= old(self).spec_config().fft_size / 2,
            forall|k: int|
                0 <= k < bins@.len() ==> -MAX_BIN <= (#[trigger] bins@[k]).re <= MAX_BIN && -MAX_BIN
                    <= bins@[k].im <= MAX_BIN,
        ensures
            final(self).wf(),
            final(self).spec_config() == old(self).spec_config(),
            final(self).proc().view_raw().len() == old(self).spec_config().fft_size / 2,
            forall|i: int|
                0 <= i < final(self).proc().view_raw().len() ==> #[trigger] final(self).proc().view_raw()[i] == crate::processor::mag_spec(
                    bins@[i].re as int,
                    bins@[i].im as int,
                    old(self).proc().spec_norm() as int,
                ),
            forall|i: int|
                0 <= i < crate::waveform::BAND_COUNT ==> #[trigger] final(self).wave().view_factors()[i] == crate::waveform::factor_spec(
                    final(self).proc().view_raw(),
                    i,
                ),
            final(self).proc().spec_bands() == old(self).proc().spec_bands(),
            final(self).spec_pending() == old(self).spec_pending(),
            forall|i: int|
                0 <= i < old(self).proc().spec_bands().len() ==> #[trigger] final(self).proc().view_spectrum()[i] == crate::processor::blend_spec(
                    old(self).proc().view_spectrum()[i] as int,
                    crate::processor::compensated_spec(
                        crate::processor::band_average(
                            final(self).proc().view_raw(),
                            old(self).proc().spec_bands()[i].bin_low as int,
                            old(self).proc().spec_bands()[i].bin_high as int,
                        ),
                        old(self).proc().spec_bands()[i].compensation as int,
                    ),
                ),
            old(self).spec_pending().len() == 0 ==> final(self).wave().view_trace() == old(self).wave().view_trace(),
            old(self).spec_pending().len() > 0 ==> forall|x: int|
                0 <= x < old(self).wave().view_trace().len() ==> #[trigger] final(self).wave().view_trace()[x] == crate::waveform::blend_half(
                    old(self).wave().view_trace()[x] as int,
                    old(self).spec_pending()[crate::waveform::src_idx(
                        x,
                        old(self).wave().spec_width() as int,
                        old(self).spec_pending().len() as int,
                    )] as int,
                ),
            forall|i: int|
                0 <= i < final(self).bars().view_levels().len() ==> #[trigger] final(self).bars().view_levels()[i] == crate::spectrum::bar_step(
                    old(self).bars().view_levels()[i] as int,
                    old(self).bars().view_velocities()[i] as int,
                    final(self).proc().view_spectrum()[i] as int,
                ).0,
            forall|i: int|
                0 <= i < final(self).bars().view_velocities().len() ==> #[trigger] final(self).bars().view_velocities()[i] == crate::spectrum::bar_step(
                    old(self).bars().view_levels()[i] as int,
                    old(self).bars().view_velocities()[i] as int,
                    final(self).proc().view_spectrum()[i] as int,
                ).1,
            final(self).bars().spec_window_height() == old(self).spec_dims().1,
    {
        self.processor.process(bins);
        let fft_ref = self.processor.fft_output();
        proof {
            assert forall|k: int|
                0 <= k < self.processor.view_raw().len() implies #[trigger] self.processor
                .view_raw()[k] <= ONE by {}
        }
        self.waveform.update(&self.pending_mono, fft_ref);
        self.step_bars();
    }

    /// One physics step of the bars against the engine's current spectrum,
    /// using the window height observed at the last render.
    fn step_bars(&mut self)
        requires
            old(self).wf(),
        ensures
            final(self).wf(),
            final(self).spec_config() == old(self).spec_config(),
            final(self).proc() == old(self).proc(),
            final(self).wave() == old(self).wave(),
            final(self).spec_pending() == old(self).spec_pending(),
            final(self).spec_dims() == old(self).spec_dims(),
            final(self).bars().spec_bar_count() == old(self).bars().spec_bar_count(),
            final(self).bars().spec_window_height() == old(self).spec_dims().1,
            final(self).bars().view_lut() == crate::spectrum::lut_spec(
                old(self).spec_dims().1 as int,
            ),
            forall|i: int|
                0 <= i < final(self).bars().view_levels().len() ==> #[trigger] final(self).bars().view_levels()[i] == crate::spectrum::bar_step(
                    old(self).bars().view_levels()[i] as int,
                    old(self).bars().view_velocities()[i] as int,
                    old(self).proc().view_spectrum()[i] as int,
                ).0,
            forall|i: int|
                0 <= i < final(self).bars().view_velocities().len() ==> #[trigger] final(self).bars().view_velocities()[i] == crate::spectrum::bar_step(
                    old(self).bars().view_levels()[i] as int,
                    old(self).bars().view_velocities()[i] as int,
                    old(self).proc().view_spectrum()[i] as int,
                ).1,
    {
        let spectrum_ref = self.processor.spectrum();
        proof {
            assert forall|k: int|
                0 <= k < self.processor.view_spectrum().len() implies #[trigger] self.processor
                .view_spectrum()[k] <= ONE by {}
        }
        self.spectrum.update(spectrum_ref, self.window_dims.1);
    }

    /// Adopts a new display width for the waveform trace.
    pub fn resize(&mut self, width: usize)
        requires
            old(self).wf(),
            width <= 65535,
        ensures
            final(self).wf(),
            final(self).wave().spec_width() == width,
            forall|i: int|
                0 <= i < width && i < old(self).wave().view_trace().len() ==> #[trigger] final(self).wave().view_trace()[i] == old(self).wave().view_trace()[i],
    {
        self.waveform.resize(width);
    }

    /// Renders one frame: the waveform layers, the spectrum bars, an
    /// energy-driven sprinkle of random pixels, and the wall clock; the
    /// observed window size is refreshed for the next update.
    pub fn render(&mut self, renderer: &mut Renderer)
        requires
            old(self).wf(),
            old(renderer).wf(),
        ensures
            final(self).wf(),
            final(renderer).wf(),
            final(renderer).spec_width() == old(renderer).spec_width(),
            final(renderer).spec_height() == old(renderer).spec_height(),
            final(self).spec_dims().0 == old(renderer).spec_width(),
            final(self).spec_dims().1 == old(renderer).spec_height(),
            final(self).spec_config() == old(self).spec_config(),
            final(self).proc() == old(self).proc(),
            final(self).bars() == old(self).bars(),
            final(self).wave() == old(self).wave(),
            final(self).spec_pending() == old(self).spec_pending(),
            forall|j: int|
                #![trigger final(renderer).spec_buffer()[j]]
                0 <= j < final(renderer).spec_buffer().len() ==> final(renderer).spec_buffer()[j]
                    == old(renderer).spec_buffer()[j] || frame_colour_ok(
                    final(renderer).spec_buffer()[j],
                    old(self).bars().view_lut(),
                ),
            old(renderer).spec_height() >= 1 ==> forall|px: int|
                0 <= px < old(renderer).spec_width() ==> frame_colour_ok(
                    #[trigger] final(renderer).spec_buffer()[crate::primitives::pix_idx(
                        old(renderer).spec_width() as int,
                        px,
                        old(renderer).spec_height() as int / 2,
                    )],
                    old(self).bars().view_lut(),
                ),
            (old(renderer).spec_width() > 34 && old(renderer).spec_height() > 20) ==> {
                &&& final(renderer).spec_buffer()[crate::primitives::pix_idx(
                    old(renderer).spec_width() as int,
                    28,
                    13,
                )] == 0x00FFFFFFu32
                &&& final(renderer).spec_buffer()[crate::primitives::pix_idx(
                    old(renderer).spec_width() as int,
                    28,
                    17,
                )] == 0x00FFFFFFu32
            },
    {
        let ghost b0 = renderer.spec_buffer();
        let (width, height) = renderer.dimensions();
        self.window_dims = (width, height);
        self.waveform.render(renderer);
        let ghost b1 = renderer.spec_buffer();
        self.spectrum.render(renderer);
        let ghost b2 = renderer.spec_buffer();
        self.render_particles(renderer);
        let ghost b3 = renderer.spec_buffer();
        let (hour, minute) = crate::host::local_time_hm();
        renderer.draw_clock(hour, minute, 10, 10, 0x00FFFFFF);
        proof {
            assert forall|j: int|
                #![trigger renderer.spec_buffer()[j]]
                0 <= j < renderer.spec_buffer().len() implies renderer.spec_buffer()[j] == b0[j]
                || frame_colour_ok(renderer.spec_buffer()[j], self.spectrum.view_lut()) by {
                assert(renderer.spec_buffer()[j] == b3[j] || renderer.spec_buffer()[j]
                    == 0x00FFFFFFu32);
                assert(b3[j] == b2[j] || is_particle_colour(b3[j]));
                assert(b2[j] == b1[j] || self.spectrum.view_lut().contains(b2[j]));
                assert(b1[j] == b0[j] || crate::waveform::is_wave_colour(b1[j]));
            }
            if height >= 1 {
                assert forall|px: int| 0 <= px < width implies frame_colour_ok(
                    #[trigger] renderer.spec_buffer()[crate::primitives::pix_idx(
                        width as int,
                        px,
                        height as int / 2,
                    )],
                    self.spectrum.view_lut(),
                ) by {
                    crate::primitives::lemma_pix_in_bounds(
                        width as int,
                        height as int,
                        px,
                        height as int / 2,
                    );
                    let j = crate::primitives::pix_idx(width as int, px, height as int / 2);
                    assert(crate::waveform::is_wave_colour(b1[j]));
                    assert(b2[j] == b1[j] || self.spectrum.view_lut().contains(b2[j]));
                    assert(b3[j] == b2[j] || is_particle_colour(b3[j]));
                    assert(renderer.spec_buffer()[j] == b3[j] || renderer.spec_buffer()[j]
                        == 0x00FFFFFFu32);
                }
            }
            if width > 34 && height > 20 {
                let ghost cb = crate::renderer::clock_bytes(hour as int, minute as int);
                assert(crate::primitives::text_pix(
                    cb,
                    10,
                    10,
                    width as int,
                    height as int,
                    28,
                    13,
                ) && crate::primitives::text_pix(
                    cb,
                    10,
                    10,
                    width as int,
                    height as int,
                    28,
                    17,
                )) by {
                    reveal_with_fuel(crate::primitives::text_pix, 4);
                    assert(48 <= cb[0] <= 57 && 48 <= cb[1] <= 57 && cb[2] == 58);
                    assert(cb.drop_first()[1] == cb[2] && cb.drop_first().drop_first()[0] == cb[2]);
                }
            }
        }
    }

    /// Scatters up to 50 bright pixels, their number driven by the total
    /// spectral energy, at random positions and colours.
    fn render_particles(&self, renderer: &mut Renderer)
        requires
            self.wf(),
            old(renderer).wf(),
        ensures
            final(renderer).wf(),
            final(renderer).spec_width() == old(renderer).spec_width(),
            final(renderer).spec_height() == old(renderer).spec_height(),
            forall|j: int|
                #![trigger final(renderer).spec_buffer()[j]]
                0 <= j < final(renderer).spec_buffer().len() ==> final(renderer).spec_buffer()[j]
                    == old(renderer).spec_buffer()[j] || is_particle_colour(
                    final(renderer).spec_buffer()[j],
                ),
    {
        let ghost entry_buf = renderer.spec_buffer();
        let (width, height) = renderer.dimensions();
        if width == 0 || height == 0 {
            return ;
        }
        let n = self.processor.spectrum().len();
        let mut total: u64 = 0;
        let mut i: usize = 0;
        while i < n
            invariant
                self.wf(),
                n == self.proc().view_spectrum().len(),
                n <= 512,
                i <= n,
                total <= (i as int) * (ONE as int),
            decreases n - i,
        {
            proof {
                assert(self.proc().view_spectrum()[i as int] <= ONE);
            }
            let v = self.processor.spectrum()[i];
            total = total + v as u64;
            i = i + 1;
        }
        // particle count: total energy (in whole units) times 100, capped
        let scaled: u64 = total * 100 / 65536;
        let count: u64 = if scaled < 50 {
            scaled
        } else {
            50
        };
        let mut p: u64 = 0;
        while p < count
            invariant
                old(renderer).wf(),
                renderer.wf(),
                renderer.spec_width() == old(renderer).spec_width(),
                renderer.spec_height() == old(renderer).spec_height(),
                renderer.spec_buffer().len() == entry_buf.len(),
                renderer.spec_width() >= 1,
                renderer.spec_height() >= 1,
                p <= count,
                forall|j: int|
                    #![trigger renderer.spec_buffer()[j]]
                    0 <= j < renderer.spec_buffer().len() ==> renderer.spec_buffer()[j]
                        == entry_buf[j] || is_particle_colour(renderer.spec_buffer()[j]),
            decreases count - p,
        {
            let (w, h) = renderer.dimensions();
            let x = crate::host::random_below(w as u32) as usize;
            let y = crate::host::random_below(h as u32) as usize;
            let r = 180 + crate::host::random_below(75);
            let g = 100 + crate::host::random_below(100);
            let b = 200 + crate::host::random_below(55);
            let colour = (r << 16) | (g << 8) | b;
            proof {
                assert(((colour >> 16) & 0xFF) == r && ((colour >> 8) & 0xFF) == g && (colour
                    & 0xFF) == b) by (bit_vector)
                    requires
                        colour == (r << 16) | (g << 8) | b,
                        180 <= r < 255,
                        100 <= g < 200,
                        200 <= b < 255,
                ;
            }
            renderer.set_pixel(x, y, colour);
            p = p + 1;
        }
    }
}

} // verus!
