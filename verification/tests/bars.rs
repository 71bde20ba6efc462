//! Spectrum bar state tests: attack/fall physics and the colour table.

use spectra::spectrum::SpectrumAnalyzer;

#[test]
fn rising_input_never_drops_levels() {
    let mut bars = SpectrumAnalyzer::new(4);
    let spectrum = vec![30000u32; 4];
    let mut prev = vec![0u32; 4];
    for _ in 0..20 {
        bars.update(&spectrum, 100);
        for i in 0..4 {
            let level = bars.level(i);
            assert!(level >= prev[i], "levels must not drop under a rising input");
            prev[i] = level;
        }
    }
    assert!(prev.iter().all(|&l| l > 0));
}

#[test]
fn dropped_input_levels_fall_and_stay_nonnegative() {
    let mut bars = SpectrumAnalyzer::new(4);
    let loud = vec![60000u32; 4];
    for _ in 0..20 {
        bars.update(&loud, 100);
    }
    let zeros = vec![0u32; 4];
    let mut prev: Vec<u32> = (0..4).map(|i| bars.level(i)).collect();
    for _ in 0..200 {
        bars.update(&zeros, 100);
        for i in 0..4 {
            let level = bars.level(i);
            assert!(level <= prev[i], "levels must not rise after the input drops");
            prev[i] = level;
        }
    }
    // gravity eventually pulls every bar to the floor
    assert!(prev.iter().all(|&l| l == 0));
}

#[test]
fn colour_lut_rebuild_is_idempotent() {
    let mut bars = SpectrumAnalyzer::new(8);
    let spectrum = vec![10000u32; 8];
    bars.update(&spectrum, 120);
    let first: Vec<u32> = bars.colour_lut().clone();
    bars.update(&spectrum, 120);
    let second: Vec<u32> = bars.colour_lut().clone();
    assert_eq!(first, second, "same target height must give the same LUT");
    assert_eq!(first.len(), 121);
    // endpoints are the exact top and bottom gradient colours
    assert_eq!(first[0], 0x008F4E8B);
    assert_eq!(first[120], 0x00453A62);
}

#[test]
fn lut_tracks_height_changes() {
    let mut bars = SpectrumAnalyzer::new(2);
    let spectrum = vec![0u32; 2];
    bars.update(&spectrum, 50);
    assert_eq!(bars.colour_lut().len(), 51);
    bars.update(&spectrum, 75);
    assert_eq!(bars.colour_lut().len(), 76);
    bars.update(&spectrum, 50);
    assert_eq!(bars.colour_lut().len(), 51);
    assert_eq!(bars.colour_lut()[0], 0x008F4E8B);
}

#[test]
fn render_paints_gradient_pixels() {
    let mut bars = SpectrumAnalyzer::new(4);
    let loud = vec![65536u32; 4];
    for _ in 0..30 {
        bars.update(&loud, 300);
    }
    let mut renderer = spectra::renderer::Renderer::new(100, 300);
    bars.render(&mut renderer);
    let lut: Vec<u32> = bars.colour_lut().clone();
    let painted = renderer.buffer().iter().filter(|&&p| p != 0).count();
    assert!(painted > 0, "bars with energy must paint pixels");
    for &p in renderer.buffer().iter() {
        assert!(p == 0 || lut.contains(&p), "painted pixels come from the gradient");
    }
    // pixels outside the centred bar group are untouched: the group spans
    // columns 36..63 of the 100-wide surface
    for py in 0..300usize {
        assert_eq!(renderer.buffer()[py * 100], 0, "left margin stays untouched");
        assert_eq!(renderer.buffer()[py * 100 + 99], 0, "right margin stays untouched");
    }
}
