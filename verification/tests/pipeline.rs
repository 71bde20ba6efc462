//! Coordinator and packet channel tests, including the end-to-end silence
//! scenario.

use realfft::RealFftPlanner;
use spectra::channel::PacketChannel;
use spectra::channel::select_latest;
use spectra::config::AudioConfig;
use spectra::packet::AudioPacket;
use spectra::processor::FftBin;
use spectra::renderer::Renderer;
use spectra::visualiser::Visualiser;

fn config() -> AudioConfig {
    AudioConfig { fft_size: 1024, buffer_size: 2048, bar_count: 64 }
}

fn packet(samples: Vec<i32>, channels: u16, silent: bool) -> AudioPacket {
    AudioPacket { samples, sample_rate: 48000, channels, is_silent: silent }
}

fn run_fft(prepared: &[i32]) -> Vec<FftBin> {
    let n = prepared.len();
    let mut planner = RealFftPlanner::<f32>::new();
    let r2c = planner.plan_fft_forward(n);
    let mut input: Vec<f32> = prepared.iter().map(|&v| v as f32 / 65536.0).collect();
    let mut output = r2c.make_output_vec();
    r2c.process(&mut input, &mut output).expect("fft failed");
    output
        .iter()
        .map(|c| FftBin {
            re: ((c.re as f64) * 65536.0).round() as i64,
            im: ((c.im as f64) * 65536.0).round() as i64,
        })
        .collect()
}

#[test]
fn channel_keeps_latest_value_only() {
    let mut ch = PacketChannel::new(AudioPacket::default());
    assert!(ch.read().is_silent);
    assert_eq!(ch.read().samples.len(), 0);
    ch.write(packet(vec![1, 2], 1, false));
    assert_eq!(ch.read().samples, vec![1, 2]);
    // a second read without a write returns the same stale value
    assert_eq!(ch.read().samples, vec![1, 2]);
    ch.write(packet(vec![3], 1, false));
    ch.write(packet(vec![4], 1, false));
    assert_eq!(ch.read().samples, vec![4], "older write is replaced, not queued");
}

#[test]
fn batch_forwards_most_recent_only() {
    let batch: Vec<AudioPacket> = Vec::new();
    assert!(select_latest(&batch).is_none());
    let batch = vec![
        packet(vec![1], 1, false),
        packet(vec![2], 1, false),
        packet(vec![3], 1, false),
    ];
    assert_eq!(select_latest(&batch).unwrap().samples, vec![3]);
}

#[test]
fn mix_to_mono_averages_channels() {
    let vis = Visualiser::new(config(), 640);
    let stereo = vec![65536i32, 0, -65536, -32768, 100, 50];
    let mono = vis.mix_to_mono(&stereo, 2);
    assert_eq!(mono, vec![32768, -49152, 75]);
    // channel count changing between packets is recomputed per packet
    let mono3 = vis.mix_to_mono(&stereo, 3);
    assert_eq!(mono3.len(), 2);
    assert_eq!(mono3[0], (65536 - 65536 + 0) / 3);
}

#[test]
fn silence_scenario_decays_and_never_panics() {
    // config {fft_size: 1024, buffer_size: 2048, bar_count: 64}, rate 48000
    let mut vis = Visualiser::new(config(), 640);
    // put some energy in first
    let loud: Vec<i32> = (0..1024)
        .map(|k| ((0.8 * (2.0 * std::f64::consts::PI * 1000.0 * k as f64 / 48000.0).sin())
            * 65536.0) as i32)
        .collect();
    for _ in 0..5 {
        let prepared = vis.update(&packet(loud.clone(), 1, false)).expect("fft input");
        let bins = run_fft(&prepared);
        vis.finish_update(&bins);
    }
    let before: Vec<u32> = vis.spectrum().clone();
    assert!(before.iter().any(|&v| v > 0));
    // 1024 samples of silence
    let silent = AudioPacket {
        samples: vec![0i32; 1024],
        sample_rate: 48000,
        channels: 2,
        is_silent: true,
    };
    let r = vis.update(&silent);
    assert!(r.is_none(), "a silent packet is handled in one step");
    let after: Vec<u32> = vis.spectrum().clone();
    for (b, a) in before.iter().zip(after.iter()) {
        assert!(a <= b);
        if *b > 0 {
            assert!(a < b, "silence strictly decays the spectrum");
        }
    }
    // and a full frame renders without error
    let mut renderer = Renderer::new(640, 480);
    renderer.clear();
    vis.render(&mut renderer);
    assert_eq!(renderer.dimensions(), (640, 480));
}

#[test]
fn update_roundtrip_with_real_fft() {
    let mut vis = Visualiser::new(config(), 320);
    let block = vec![20000i32; 2048];
    let prepared = vis.update(&packet(block, 1, false)).expect("non-silent packet");
    assert_eq!(prepared.len(), 1024);
    let bins = run_fft(&prepared);
    vis.finish_update(&bins);
    // a DC block through DC removal carries almost no energy
    let mut renderer = Renderer::new(320, 200);
    vis.render(&mut renderer);
    vis.resize(200);
    let mut renderer2 = Renderer::new(200, 100);
    vis.render(&mut renderer2);
}

#[test]
fn render_draws_clock_and_particles() {
    let mut vis = Visualiser::new(config(), 640);
    let loud: Vec<i32> = (0..1024)
        .map(|k| ((0.9 * (2.0 * std::f64::consts::PI * 500.0 * k as f64 / 48000.0).sin())
            * 65536.0) as i32)
        .collect();
    for _ in 0..30 {
        let prepared = vis.update(&packet(loud.clone(), 1, false)).expect("fft input");
        let bins = run_fft(&prepared);
        vis.finish_update(&bins);
    }
    let energy: u64 = vis.spectrum().iter().map(|&v| v as u64).sum();
    assert!(energy * 100 / 65536 >= 50, "enough energy for the full particle count");
    let mut renderer = Renderer::new(640, 480);
    renderer.clear();
    vis.render(&mut renderer);
    let buf = renderer.buffer();
    // the clock colon at (10 + 16 + 2, 10 + 3) and (…, 10 + 7) is always lit
    assert_eq!(buf[13 * 640 + 28], 0x00FFFFFF);
    assert_eq!(buf[17 * 640 + 28], 0x00FFFFFF);
    // particles use a colour family nothing else paints: r in 180..255,
    // g in 100..200, b in 200..255
    let particles = buf
        .iter()
        .filter(|&&c| {
            let r = (c >> 16) & 0xFF;
            let g = (c >> 8) & 0xFF;
            let b = c & 0xFF;
            (180..255).contains(&r) && (100..200).contains(&g) && (200..255).contains(&b)
        })
        .count();
    assert!(particles >= 1, "the energy-driven particles must appear");
}

#[test]
fn empty_mono_packet_is_finished_inline() {
    let mut vis = Visualiser::new(config(), 64);
    // a non-silent packet with no samples yields no mono frame
    let r = vis.update(&packet(Vec::new(), 2, false));
    assert!(r.is_none());
}
