//! Framebuffer and drawing primitive tests.

use spectra::renderer::Renderer;

#[test]
fn rect_fills_exact_pixels() {
    let mut r = Renderer::new(10, 10);
    r.draw_rect(2, 3, 4, 2, 0xABCDEF);
    let buf = r.buffer();
    for py in 0..10usize {
        for px in 0..10usize {
            let expected = if (2..6).contains(&px) && (3..5).contains(&py) {
                0xABCDEF
            } else {
                0
            };
            assert_eq!(buf[py * 10 + px], expected, "pixel ({px},{py})");
        }
    }
}

#[test]
fn rect_clips_to_surface() {
    let mut r = Renderer::new(4, 4);
    r.draw_rect(2, 2, 100, 100, 7);
    let buf = r.buffer();
    assert_eq!(buf.len(), 16);
    let lit = buf.iter().filter(|&&p| p == 7).count();
    assert_eq!(lit, 4, "only the in-bounds 2x2 corner is painted");
}

#[test]
fn set_pixel_and_clear() {
    let mut r = Renderer::new(5, 5);
    r.set_pixel(1, 2, 42);
    assert_eq!(r.buffer()[2 * 5 + 1], 42);
    r.set_pixel(7, 7, 42);  // out of bounds: silent no-op
    assert_eq!(r.buffer().iter().filter(|&&p| p == 42).count(), 1);
    r.clear();
    assert!(r.buffer().iter().all(|&p| p == 0x001A1A1A));
}

#[test]
fn line_paints_endpoints() {
    let mut r = Renderer::new(20, 20);
    r.draw_line(1, 1, 10, 10, 9);
    let buf = r.buffer();
    assert_eq!(buf[1 * 20 + 1], 9);
    assert_eq!(buf[10 * 20 + 10], 9);
    // every painted pixel has the line colour
    assert!(buf.iter().all(|&p| p == 0 || p == 9));
    // a diagonal of length 10 paints 10 pixels
    assert_eq!(buf.iter().filter(|&&p| p == 9).count(), 10);
}

#[test]
fn line_clips_negative_coordinates() {
    let mut r = Renderer::new(8, 8);
    r.draw_line(0, -5, 7, 3, 3);
    assert!(r.buffer().iter().all(|&p| p == 0 || p == 3));
}

#[test]
fn text_draws_digits_and_colon() {
    let mut r = Renderer::new(60, 20);
    r.draw_text("12:45", 1, 1, 5);
    let buf = r.buffer();
    // the colon cell starts at x = 1 + 2*8: its two dots sit at +2 columns,
    // rows y+3 and y+7
    assert_eq!(buf[4 * 60 + 19], 5);
    assert_eq!(buf[8 * 60 + 19], 5);
    // digit 1: only the two right-column segments light up; top-left is dark
    assert_eq!(buf[1 * 60 + 1], 0);
    // digit 1's top-right segment column (x=1+4) is lit
    assert_eq!(buf[1 * 60 + 5], 5);
    assert!(buf.iter().all(|&p| p == 0 || p == 5));
}

#[test]
fn clock_matches_text_glyphs() {
    let mut a = Renderer::new(60, 20);
    let mut b = Renderer::new(60, 20);
    a.draw_text("07:59", 1, 1, 6);
    b.draw_clock(7, 59, 1, 1, 6);
    assert_eq!(a.buffer(), b.buffer());
}

#[test]
fn resize_reallocates() {
    let mut r = Renderer::new(4, 4);
    r.set_pixel(0, 0, 1);
    r.resize(6, 3);
    assert_eq!(r.dimensions(), (6, 3));
    assert_eq!(r.buffer().len(), 18);
    r.resize(6, 3);
    assert_eq!(r.buffer().len(), 18);
}
