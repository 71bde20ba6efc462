//! Waveform band state tests: resize, blend, decay, band energies.

use spectra::waveform::WaveformDisplay;

#[test]
fn resize_down_then_up_preserves_content() {
    let mut wave = WaveformDisplay::new(100);
    let block = vec![40000i32; 100];
    let raw = vec![0u32; 512];
    wave.update(&block, &raw);
    let before: Vec<i32> = wave.trace().clone();
    wave.resize(50);
    assert_eq!(wave.trace().len(), 50);
    assert_eq!(&before[..50], &wave.trace()[..]);
    wave.resize(100);
    assert_eq!(wave.trace().len(), 100);
    assert_eq!(&before[..50], &wave.trace()[..50]);
    assert!(wave.trace()[50..].iter().all(|&v| v == 0));
}

#[test]
fn blend_halves_toward_input() {
    let mut wave = WaveformDisplay::new(4);
    let raw = vec![0u32; 512];
    let block = vec![65536i32, -65536, 32768, 0];
    wave.update(&block, &raw);
    assert_eq!(wave.trace()[..], [32768, -32768, 16384, 0]);
    wave.update(&block, &raw);
    assert_eq!(wave.trace()[..], [49152, -49152, 24576, 0]);
    // an empty block leaves the trace untouched
    wave.update(&Vec::new(), &raw);
    assert_eq!(wave.trace()[..], [49152, -49152, 24576, 0]);
}

#[test]
fn decay_strictly_shrinks_magnitudes() {
    let mut wave = WaveformDisplay::new(6);
    let raw = vec![0u32; 512];
    let block: Vec<i32> = vec![65536, -65536, 4, -4, 0, 2];
    wave.update(&block, &raw);
    let before: Vec<i32> = wave.trace().clone();
    wave.decay();
    let after: Vec<i32> = wave.trace().clone();
    for (b, a) in before.iter().zip(after.iter()) {
        assert!(a.abs() <= b.abs());
        if *b != 0 {
            assert!(a.abs() < b.abs(), "nonzero samples must strictly shrink");
        } else {
            assert_eq!(*a, 0);
        }
    }
    // signs are kept, and the factor is exact: 32768 * 62259 / 65536
    assert!(after[0] > 0 && after[1] < 0);
    assert_eq!(before[0], 32768);
    assert_eq!(after[0], 31129);
    assert_eq!(after[1], -31129);
}

#[test]
fn band_energy_exact() {
    let mut wave = WaveformDisplay::new(4);
    // bins 0..4 fully lit: band 0 average is ONE, factor = 1 * 0.4 * 1.0
    let mut raw = vec![0u32; 512];
    for k in 0..4 {
        raw[k] = 65536;
    }
    let block = vec![0i32; 4];
    wave.update(&block, &raw);
    assert_eq!(wave.factor(0), 26214);
    assert_eq!(wave.factor(1), 0);
    assert_eq!(wave.factor(5), 0);
}

#[test]
fn band_energy_scales_with_gain() {
    let mut wave = WaveformDisplay::new(4);
    // all bins fully lit: every band average is ONE, factor = (i+1)*0.4
    let raw = vec![65536u32; 512];
    let block = vec![0i32; 4];
    wave.update(&block, &raw);
    for i in 0..6 {
        assert_eq!(wave.factor(i), (i as u32 + 1) * 26214);
    }
}

#[test]
fn render_uses_band_colours() {
    let mut wave = WaveformDisplay::new(64);
    let block: Vec<i32> = (0..64).map(|k| if k % 2 == 0 { 50000 } else { -50000 }).collect();
    let raw = vec![65536u32; 512];
    wave.update(&block, &raw);
    let mut renderer = spectra::renderer::Renderer::new(64, 600);
    wave.render(&mut renderer);
    let allowed = [
        0x00333333u32,
        0x00FF0000,
        0x00FF7F00,
        0x00FFFF00,
        0x0000FF00,
        0x000000FF,
        0x004B0082,
    ];
    let mut painted = 0usize;
    for &p in renderer.buffer().iter() {
        if p != 0 {
            assert!(allowed.contains(&p), "unexpected colour {p:#x}");
            painted += 1;
        }
    }
    assert!(painted > 64, "centre line and traces must paint pixels");
    // the whole centre row is drawn (reference line, possibly overdrawn by
    // band segments)
    for x in 0..64usize {
        let p = renderer.buffer()[300 * 64 + x];
        assert!(allowed.contains(&p), "centre row column {x} must be drawn");
    }
}
