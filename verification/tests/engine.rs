//! Spectral engine tests: zero blocks, silence decay, band mapping, and a
//! sine sweep through a real FFT.

use realfft::RealFftPlanner;
use spectra::config::AudioConfig;
use spectra::processor::AudioProcessor;
use spectra::processor::FftBin;

fn config() -> AudioConfig {
    AudioConfig { fft_size: 1024, buffer_size: 2048, bar_count: 64 }
}

fn hann_q16(n: usize) -> Vec<u32> {
    apodize::hanning_iter(n).map(|v| (v * 65536.0).round() as u32).collect()
}

/// Runs the forward FFT on a prepared Q16.16 block, returning Q16.16 bins.
fn run_fft(prepared: &[i32]) -> Vec<FftBin> {
    let n = prepared.len();
    let mut planner = RealFftPlanner::<f32>::new();
    let r2c = planner.plan_fft_forward(n);
    let mut input: Vec<f32> = prepared.iter().map(|&v| v as f32 / 65536.0).collect();
    let mut output = r2c.make_output_vec();
    r2c.process(&mut input, &mut output).expect("fft failed");
    output
        .iter()
        .map(|c| FftBin {
            re: ((c.re as f64) * 65536.0).round() as i64,
            im: ((c.im as f64) * 65536.0).round() as i64,
        })
        .collect()
}

fn sine_block(freq: f64, rate: f64, len: usize, amp: f64) -> Vec<i32> {
    (0..len)
        .map(|k| {
            let v = amp * (2.0 * std::f64::consts::PI * freq * k as f64 / rate).sin();
            (v * 65536.0).round() as i32
        })
        .collect()
}

#[test]
fn zero_block_yields_zero_spectrum() {
    let mut engine = AudioProcessor::new(config());
    assert!(engine.set_window(&hann_q16(1024)));
    let zeros = vec![0i32; 1024];
    let prepared = engine.prepare_input(&zeros, 48000);
    assert_eq!(prepared.len(), 1024);
    assert!(prepared.iter().all(|&v| v == 0));
    let bins = run_fft(&prepared);
    engine.process(&bins);
    assert!(engine.fft_output().iter().all(|&m| m == 0));
    assert!(engine.spectrum().iter().all(|&s| s == 0));
}

#[test]
fn silence_strictly_decays_spectrum() {
    let mut engine = AudioProcessor::new(config());
    assert!(engine.set_window(&hann_q16(1024)));
    let block = sine_block(1000.0, 48000.0, 1024, 0.8);
    for _ in 0..10 {
        let prepared = engine.prepare_input(&block, 48000);
        let bins = run_fft(&prepared);
        engine.process(&bins);
    }
    let before: Vec<u32> = engine.spectrum().clone();
    assert!(before.iter().any(|&s| s > 0), "sine should leave energy");
    engine.process_silence(48000);
    let after: Vec<u32> = engine.spectrum().clone();
    for (b, a) in before.iter().zip(after.iter()) {
        if *b > 0 {
            assert!(a < b, "positive entries must strictly decrease");
        } else {
            assert_eq!(*a, 0);
        }
    }
}

#[test]
fn band_mapping_valid_for_all_rates() {
    for rate in [8000u32, 22050, 44100, 48000, 96000, 192000, 1, 7] {
        let mut engine = AudioProcessor::new(config());
        engine.process_silence(rate);
        assert_eq!(engine.band_count(), 64);
        for i in 0..64 {
            let (lo, hi) = engine.band_range(i);
            assert!(lo < hi, "rate {rate} bar {i}: {lo} !< {hi}");
            assert!(hi <= 1024 / 2 - 1, "rate {rate} bar {i}: {hi} out of range");
        }
    }
}

#[test]
fn magnitude_formula_exact() {
    // fft_size 1024: norm = 2^32 / sqrt(1024 * 2^32) = 2048.
    let mut engine = AudioProcessor::new(config());
    engine.process_silence(48000);
    let mut bins = vec![FftBin { re: 0, im: 0 }; 513];
    bins[0] = FftBin { re: 65536, im: 0 };
    engine.process(&bins);
    // alpha-max: (62943 * 65536) / 65536 = 62943; * 2048 / 65536 = 1966;
    // * 228209 / 65536 = 6845.
    assert_eq!(engine.fft_output()[0], 6845);
    assert!(engine.fft_output()[1..].iter().all(|&m| m == 0));
}

#[test]
fn sine_peaks_at_nearest_band() {
    let rate = 48000.0;
    let freq = 1000.0;
    let mut engine = AudioProcessor::new(config());
    assert!(engine.set_window(&hann_q16(1024)));
    let block = sine_block(freq, rate, 1024, 0.9);
    for _ in 0..40 {
        let prepared = engine.prepare_input(&block, 48000);
        let bins = run_fft(&prepared);
        engine.process(&bins);
    }
    let spectrum = engine.spectrum();
    let peak_bar = spectrum
        .iter()
        .enumerate()
        .max_by_key(|(_, &v)| v)
        .map(|(i, _)| i)
        .unwrap();
    // the sine's FFT bin must lie in the peak bar's bin range
    let sine_bin = (freq * 1024.0 / rate).round() as usize;
    let (lo, hi) = engine.band_range(peak_bar);
    assert!(
        lo <= sine_bin && sine_bin <= hi,
        "peak bar {peak_bar} covers [{lo}, {hi}], sine bin is {sine_bin}"
    );
    // and among the bars whose centre frequency is defined by the geometric
    // 20 Hz..20 kHz progression, the one nearest the sine must carry more
    // energy than distant bars
    let centre = |i: usize| 20.0 * 1000.0f64.powf(i as f64 / 63.0);
    let nearest = (0..64)
        .min_by(|&a, &b| {
            (centre(a) - freq)
                .abs()
                .partial_cmp(&(centre(b) - freq).abs())
                .unwrap()
        })
        .unwrap();
    assert!(
        spectrum[nearest] > 0,
        "bar nearest the sine frequency should carry energy"
    );
    // The bandwidth factor widens bands toward high indices, so bars above
    // the nearest-centre bar average the sine's energy over more bins and
    // dilute it: the peak settles a few bars below the nearest centre.
    assert!(
        peak_bar <= nearest && nearest - peak_bar <= 4,
        "peak bar {peak_bar} should sit just below the nearest-centre bar {nearest}"
    );
}
