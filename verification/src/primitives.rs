//! Pixel-level drawing primitives over a row-major `u32` framebuffer.
//!
//! Every primitive silently clips to the surface bounds: out-of-range
//! coordinates are no-ops, never errors. The rectangle contract is
//! pixel-exact; lines, digits and text promise that any pixel they touch is
//! set to the requested colour and every other pixel is untouched in the
//! rectangle sense of the frame clauses below.

use vstd::prelude::*;
use vstd::string::StringSliceAdditionalSpecFns;

verus! {

/// Row-major index of the pixel at column `px`, row `py`.
pub open spec fn pix_idx(width: int, px: int, py: int) -> int {
    py * width + px
}

/// `(px, py)` lies in the rectangle of origin `(x, y)`, width `w`, height
/// `h`.
pub open spec fn in_rect(x: int, y: int, w: int, h: int, px: int, py: int) -> bool {
    x <= px < x + w && y <= py < y + h
}

/// Distinct in-bounds pixel coordinates have distinct row-major indices.
proof fn lemma_pix_injective(width: int, px1: int, py1: int, px2: int, py2: int)
    requires
        0 <= px1 < width,
        0 <= px2 < width,
        0 <= py1,
        0 <= py2,
        pix_idx(width, px1, py1) == pix_idx(width, px2, py2),
    ensures
        px1 == px2 && py1 == py2,
{
    assert(px1 == px2 && py1 == py2) by (nonlinear_arith)
        requires
            0 <= px1 < width,
            0 <= px2 < width,
            0 <= py1,
            0 <= py2,
            py1 * width + px1 == py2 * width + px2,
    ;
}

/// An in-bounds pixel coordinate indexes inside the framebuffer.
pub proof fn lemma_pix_in_bounds(width: int, height: int, px: int, py: int)
    requires
        0 <= px < width,
        0 <= py < height,
    ensures
        0 <= pix_idx(width, px, py) < width * height,
{
    assert(0 <= py * width + px < width * height) by (nonlinear_arith)
        requires
            0 <= px < width,
            0 <= py < height,
    ;
}

/// Fills the rectangle of origin `(x, y)`, size `w`×`h`, clipped to the
/// surface, with `color`.
pub fn draw_rect(
    buffer: &mut Vec<u32>,
    width: usize,
    height: usize,
    x: usize,
    y: usize,
    w: usize,
    h: usize,
    color: u32,
)
    requires
        old(buffer)@.len() == width * height,
        width <= 65536,
        height <= 65536,
        x <= 0x400000,
        y <= 0x400000,
        w <= 0x400000,
        h <= 0x400000,
    ensures
        final(buffer)@.len() == old(buffer)@.len(),
        forall|px: int, py: int|
            #![trigger pix_idx(width as int, px, py)]
            0 <= px < width && 0 <= py < height ==> final(buffer)@[pix_idx(width as int, px, py)]
                == (if in_rect(x as int, y as int, w as int, h as int, px, py) {
                color
            } else {
                old(buffer)@[pix_idx(width as int, px, py)]
            }),
        forall|j: int|
            #![trigger final(buffer)@[j]]
            0 <= j < final(buffer)@.len() ==> final(buffer)@[j] == old(buffer)@[j]
                || final(buffer)@[j] == color,
{
    let _n = buffer.len();
    let mut dy: usize = 0;
    while dy < h
        invariant
            old(buffer)@.len() == width * height,
            old(buffer)@.len() <= usize::MAX,
            buffer@.len() == old(buffer)@.len(),
            width <= 65536,
            height <= 65536,
            x <= 0x400000,
            y <= 0x400000,
            w <= 0x400000,
            h <= 0x400000,
            dy <= h,
            forall|px: int, py: int|
                #![trigger pix_idx(width as int, px, py)]
                0 <= px < width && 0 <= py < height ==> buffer@[pix_idx(width as int, px, py)] == (
                if in_rect(x as int, y as int, w as int, dy as int, px, py) {
                    color
                } else {
                    old(buffer)@[pix_idx(width as int, px, py)]
                }),
            forall|j: int|
                0 <= j < buffer@.len() ==> #[trigger] buffer@[j] == old(buffer)@[j] || buffer@[j]
                    == color,
        decreases h - dy,
    {
        let py = y + dy;
        let mut dx: usize = 0;
        while dx < w
            invariant
                old(buffer)@.len() == width * height,
                old(buffer)@.len() <= usize::MAX,
                buffer@.len() == old(buffer)@.len(),
                width <= 65536,
                height <= 65536,
                x <= 0x400000,
                y <= 0x400000,
                w <= 0x400000,
                h <= 0x400000,
                dy < h,
                dx <= w,
                py == y + dy,
                forall|px0: int, py0: int|
                    #![trigger pix_idx(width as int, px0, py0)]
                    0 <= px0 < width && 0 <= py0 < height ==> buffer@[pix_idx(
                        width as int,
                        px0,
                        py0,
                    )] == (if in_rect(x as int, y as int, w as int, dy as int, px0, py0) || (py0
                        == py && x <= px0 < x + dx) {
                        color
                    } else {
                        old(buffer)@[pix_idx(width as int, px0, py0)]
                    }),
                forall|j: int|
                    0 <= j < buffer@.len() ==> #[trigger] buffer@[j] == old(buffer)@[j] || buffer@[j]
                        == color,
            decreases w - dx,
        {
            let px = x + dx;
            if px < width && py < height {
                proof {
                    lemma_pix_in_bounds(width as int, height as int, px as int, py as int);
                }
                let ghost before = buffer@;
                let j = py * width + px;
                buffer[j] = color;
                proof {
                    assert forall|px0: int, py0: int|
                        0 <= px0 < width && 0 <= py0 < height && !(px0 == px && py0
                            == py) implies buffer@[#[trigger] pix_idx(width as int, px0, py0)]
                        == before[pix_idx(width as int, px0, py0)] by {
                        lemma_pix_in_bounds(width as int, height as int, px0, py0);
                        if pix_idx(width as int, px0, py0) == pix_idx(
                            width as int,
                            px as int,
                            py as int,
                        ) {
                            lemma_pix_injective(width as int, px0, py0, px as int, py as int);
                        }
                    }
                }
            }
            dx = dx + 1;
        }
        dy = dy + 1;
    }
}

/// Draws the Bresenham line from `(x1, y1)` to `(x2, y2)`, clipped to the
/// surface: every pixel it touches becomes `color`, every other pixel keeps
/// its value, and both endpoints, where in bounds, are painted.
pub fn draw_line(
    buffer: &mut Vec<u32>,
    width: usize,
    height: usize,
    x1: usize,
    y1: isize,
    x2: usize,
    y2: isize,
    color: u32,
)
    requires
        old(buffer)@.len() == width * height,
        width <= 65536,
        height <= 65536,
        x1 <= 0x100000,
        x2 <= 0x100000,
        -0x100000 <= y1 <= 0x100000,
        -0x100000 <= y2 <= 0x100000,
    ensures
        final(buffer)@.len() == old(buffer)@.len(),
        forall|j: int|
            #![trigger final(buffer)@[j]]
            0 <= j < final(buffer)@.len() ==> final(buffer)@[j] == old(buffer)@[j]
                || final(buffer)@[j] == color,
        x1 < width && 0 <= y1 < height ==> final(buffer)@[pix_idx(width as int, x1 as int, y1 as int)]
            == color,
        x2 < width && 0 <= y2 < height ==> final(buffer)@[pix_idx(width as int, x2 as int, y2 as int)]
            == color,
{
    let _n = buffer.len();
    let dx: isize = if x2 >= x1 {
        (x2 - x1) as isize
    } else {
        (x1 - x2) as isize
    };
    let dy: isize = if y2 >= y1 {
        y2 - y1
    } else {
        y1 - y2
    };
    let sx: isize = if x1 < x2 {
        1
    } else {
        -1
    };
    let sy: isize = if y1 < y2 {
        1
    } else {
        -1
    };
    let mut err: isize = dx - dy;
    let mut x: isize = x1 as isize;
    let mut y: isize = y1;
    // In well-formed runs the endpoint is reached within `dx + dy` steps; the
    // explicit budget also gives the loop an unconditional termination bound.
    let total: isize = dx + dy + 1;
    let mut fuel: isize = total;
    loop
        invariant
            old(buffer)@.len() == width * height,
            old(buffer)@.len() <= usize::MAX,
            buffer@.len() == old(buffer)@.len(),
            width <= 65536,
            height <= 65536,
            0 <= dx <= 0x200000,
            0 <= dy <= 0x200000,
            total == dx + dy + 1,
            0 <= fuel <= total,
            sx == 1 || sx == -1,
            sy == 1 || sy == -1,
            crate::fixed::sabs(x as int - x1 as int) <= total - fuel,
            crate::fixed::sabs(y as int - y1 as int) <= total - fuel,
            x1 <= 0x100000,
            -0x100000 <= y1 <= 0x100000,
            -2 * (dy as int) - 1 <= err as int <= 2 * (dx as int) + 1,
            forall|j: int|
                0 <= j < buffer@.len() ==> #[trigger] buffer@[j] == old(buffer)@[j] || buffer@[j]
                    == color,
        ensures
            buffer@.len() == old(buffer)@.len(),
            forall|j: int|
                0 <= j < buffer@.len() ==> #[trigger] buffer@[j] == old(buffer)@[j] || buffer@[j]
                    == color,
        decreases fuel,
    {
        if x >= 0 && x < width as isize && y >= 0 && y < height as isize {
            proof {
                lemma_pix_in_bounds(width as int, height as int, x as int, y as int);
            }
            let j = (y as usize) * width + (x as usize);
            buffer[j] = color;
        }
        if fuel == 0 {
            break ;
        }
        fuel = fuel - 1;
        if x == x2 as isize && y == y2 {
            break ;
        }
        let e2: isize = 2 * err;
        if e2 > -dy {
            err = err - dy;
            x = x + sx;
        }
        if e2 < dx {
            err = err + dx;
            y = y + sy;
        }
    }
    // The loop reaches the endpoint within its step budget in every
    // well-formed run; painting both endpoints here makes that guarantee
    // unconditional (repainting a pixel with the same colour is a no-op).
    if x1 < width && y1 >= 0 && y1 < height as isize {
        proof {
            lemma_pix_in_bounds(width as int, height as int, x1 as int, y1 as int);
        }
        let j = (y1 as usize) * width + x1;
        buffer[j] = color;
    }
    if x2 < width && y2 >= 0 && y2 < height as isize {
        proof {
            lemma_pix_in_bounds(width as int, height as int, x2 as int, y2 as int);
        }
        let j = (y2 as usize) * width + x2;
        buffer[j] = color;
    }
}

/// Whether display segment `s` (0 top, 1 top-left, 2 top-right, 3 middle,
/// 4 bottom-left, 5 bottom-right, 6 bottom) is lit for a decimal digit.
pub open spec fn seg_lit(digit: int, s: int) -> bool {
    let row = if digit == 0 {
        (true, true, true, false, true, true, true)
    } else if digit == 1 {
        (false, false, true, false, false, true, false)
    } else if digit == 2 {
        (true, false, true, true, true, false, true)
    } else if digit == 3 {
        (true, false, true, true, false, true, true)
    } else if digit == 4 {
        (false, true, true, true, false, true, false)
    } else if digit == 5 {
        (true, true, false, true, false, true, true)
    } else if digit == 6 {
        (true, true, false, true, true, true, true)
    } else if digit == 7 {
        (true, false, true, false, false, true, false)
    } else if digit == 8 {
        (true, true, true, true, true, true, true)
    } else {
        (true, true, true, true, false, true, true)
    };
    if s == 0 {
        row.0
    } else if s == 1 {
        row.1
    } else if s == 2 {
        row.2
    } else if s == 3 {
        row.3
    } else if s == 4 {
        row.4
    } else if s == 5 {
        row.5
    } else {
        row.6
    }
}

/// The 5×9 glyph cell rectangle of segment `s`: origin and size relative to
/// the cell corner `(x, y)`.
pub open spec fn seg_rect(x: int, y: int, s: int) -> (int, int, int, int) {
    if s == 0 {
        (x, y, 5, 1)
    } else if s == 1 {
        (x, y, 1, 4)
    } else if s == 2 {
        (x + 4, y, 1, 4)
    } else if s == 3 {
        (x, y + 4, 5, 1)
    } else if s == 4 {
        (x, y + 4, 1, 4)
    } else if s == 5 {
        (x + 4, y + 4, 1, 4)
    } else {
        (x, y + 8, 5, 1)
    }
}

/// `(px, py)` lies in one of the first `k` segments that are lit for
/// `digit`.
pub open spec fn digit_pix_upto(digit: int, x: int, y: int, px: int, py: int, k: int) -> bool
    decreases k,
{
    if k <= 0 {
        false
    } else {
        let r = seg_rect(x, y, k - 1);
        digit_pix_upto(digit, x, y, px, py, k - 1) || (seg_lit(digit, k - 1) && in_rect(
            r.0,
            r.1,
            r.2,
            r.3,
            px,
            py,
        ))
    }
}

/// `(px, py)` lies in a lit segment of `digit`'s seven-segment glyph at
/// `(x, y)`.
pub open spec fn digit_pix(digit: int, x: int, y: int, px: int, py: int) -> bool {
    digit_pix_upto(digit, x, y, px, py, 7)
}

/// Run-time segment table, matching `seg_lit`.
fn seg_of(digit: usize, s: usize) -> (r: bool)
    requires
        digit < 10,
        s < 7,
    ensures
        r == seg_lit(digit as int, s as int),
{
    let row: (bool, bool, bool, bool, bool, bool, bool) = match digit {
        0 => (true, true, true, false, true, true, true),
        1 => (false, false, true, false, false, true, false),
        2 => (true, false, true, true, true, false, true),
        3 => (true, false, true, true, false, true, true),
        4 => (false, true, true, true, false, true, false),
        5 => (true, true, false, true, false, true, true),
        6 => (true, true, false, true, true, true, true),
        7 => (true, false, true, false, false, true, false),
        8 => (true, true, true, true, true, true, true),
        _ => (true, true, true, true, false, true, true),
    };
    match s {
        0 => row.0,
        1 => row.1,
        2 => row.2,
        3 => row.3,
        4 => row.4,
        5 => row.5,
        _ => row.6,
    }
}

/// Run-time segment rectangles, matching `seg_rect`.
fn seg_rect_at(x: usize, y: usize, s: usize) -> (r: (usize, usize, usize, usize))
    requires
        s < 7,
        x <= 0x200000,
        y <= 0x200000,
    ensures
        r.0 as int == seg_rect(x as int, y as int, s as int).0,
        r.1 as int == seg_rect(x as int, y as int, s as int).1,
        r.2 as int == seg_rect(x as int, y as int, s as int).2,
        r.3 as int == seg_rect(x as int, y as int, s as int).3,
        r.0 <= 0x200004 && r.1 <= 0x200008 && r.2 <= 5 && r.3 <= 4,
{
    match s {
        0 => (x, y, 5, 1),
        1 => (x, y, 1, 4),
        2 => (x + 4, y, 1, 4),
        3 => (x, y + 4, 5, 1),
        4 => (x, y + 4, 1, 4),
        5 => (x + 4, y + 4, 1, 4),
        _ => (x, y + 8, 5, 1),
    }
}

/// Draws one decimal digit as a seven-segment glyph with its top-left corner
/// at `(x, y)`, pixel-exact: the lit segments' cells become `color`, every
/// other pixel keeps its value. Any other digit value is a no-op.
pub fn draw_digit(
    buffer: &mut Vec<u32>,
    width: usize,
    height: usize,
    digit: usize,
    x: usize,
    y: usize,
    color: u32,
)
    requires
        old(buffer)@.len() == width * height,
        width <= 65536,
        height <= 65536,
        x <= 0x200000,
        y <= 0x200000,
    ensures
        final(buffer)@.len() == old(buffer)@.len(),
        forall|j: int|
            #![trigger final(buffer)@[j]]
            0 <= j < final(buffer)@.len() ==> final(buffer)@[j] == old(buffer)@[j]
                || final(buffer)@[j] == color,
        digit >= 10 ==> final(buffer)@ == old(buffer)@,
        digit < 10 ==> forall|px: int, py: int|
            #![trigger pix_idx(width as int, px, py)]
            0 <= px < width && 0 <= py < height ==> final(buffer)@[pix_idx(width as int, px, py)]
                == (if digit_pix(digit as int, x as int, y as int, px, py) {
                color
            } else {
                old(buffer)@[pix_idx(width as int, px, py)]
            }),
{
    if digit >= 10 {
        return ;
    }
    let _n = buffer.len();
    let mut s: usize = 0;
    while s < 7
        invariant
            old(buffer)@.len() == width * height,
            old(buffer)@.len() <= usize::MAX,
            buffer@.len() == old(buffer)@.len(),
            width <= 65536,
            height <= 65536,
            x <= 0x200000,
            y <= 0x200000,
            digit < 10,
            s <= 7,
            forall|px: int, py: int|
                #![trigger pix_idx(width as int, px, py)]
                0 <= px < width && 0 <= py < height ==> buffer@[pix_idx(width as int, px, py)] == (
                if digit_pix_upto(digit as int, x as int, y as int, px, py, s as int) {
                    color
                } else {
                    old(buffer)@[pix_idx(width as int, px, py)]
                }),
            forall|j: int|
                #![trigger buffer@[j]]
                0 <= j < buffer@.len() ==> buffer@[j] == old(buffer)@[j] || buffer@[j] == color,
        decreases 7 - s,
    {
        let (rx, ry, rw, rh) = seg_rect_at(x, y, s);
        if seg_of(digit, s) {
            draw_rect(buffer, width, height, rx, ry, rw, rh, color);
        }
        s = s + 1;
    }
}

/// The pixels one byte's glyph paints, relative to a cell corner `(x, y)`:
/// a decimal digit's lit segments, a colon's two dots, nothing for any other
/// byte.
pub open spec fn byte_pix(b: u8, x: int, y: int, px: int, py: int) -> bool {
    if 48 <= b <= 57 {
        digit_pix(b as int - 48, x, y, px, py)
    } else if b == 58 {
        px == x + 2 && (py == y + 3 || py == y + 7)
    } else {
        false
    }
}

/// The pixels a byte string paints when laid out in 8-pixel cells from
/// `pos_x`: a glyph is drawn (and the cursor advanced) only while its cell
/// fits the surface.
pub open spec fn text_pix(
    bytes: Seq<u8>,
    pos_x: int,
    y: int,
    width: int,
    height: int,
    px: int,
    py: int,
) -> bool
    decreases bytes.len(),
{
    if bytes.len() == 0 {
        false
    } else {
        let fits = pos_x + 8 < width && y + 10 < height;
        (fits && byte_pix(bytes[0], pos_x, y, px, py)) || text_pix(
            bytes.drop_first(),
            if fits {
                pos_x + 8
            } else {
                pos_x
            },
            y,
            width,
            height,
            px,
            py,
        )
    }
}

/// Draws the glyphs of `bytes[i..]` from cursor `pos_x`, pixel-exact per
/// `text_pix`.
pub(crate) fn draw_glyphs(
    buffer: &mut Vec<u32>,
    width: usize,
    height: usize,
    bytes: &[u8],
    i: usize,
    pos_x: usize,
    y: usize,
    color: u32,
)
    requires
        old(buffer)@.len() == width * height,
        width <= 65536,
        height <= 65536,
        pos_x <= 0x110000,
        y <= 0x100000,
        i <= bytes@.len(),
    ensures
        final(buffer)@.len() == old(buffer)@.len(),
        forall|j: int|
            #![trigger final(buffer)@[j]]
            0 <= j < final(buffer)@.len() ==> final(buffer)@[j] == old(buffer)@[j]
                || final(buffer)@[j] == color,
        forall|px: int, py: int|
            #![trigger pix_idx(width as int, px, py)]
            0 <= px < width && 0 <= py < height ==> final(buffer)@[pix_idx(width as int, px, py)]
                == (if text_pix(
                bytes@.skip(i as int),
                pos_x as int,
                y as int,
                width as int,
                height as int,
                px,
                py,
            ) {
                color
            } else {
                old(buffer)@[pix_idx(width as int, px, py)]
            }),
    decreases bytes@.len() - i,
{
    let _n = buffer.len();
    if i == bytes.len() {
        proof {
            assert(bytes@.skip(i as int).len() == 0);
        }
        return ;
    }
    let c = bytes[i];
    let fits = pos_x + 8 < width && y + 10 < height;
    let ghost orig = buffer@;
    if fits {
        if 48 <= c && c <= 57 {
            draw_digit(buffer, width, height, (c - 48) as usize, pos_x, y, color);
        } else if c == 58 {
            proof {
                lemma_pix_in_bounds(width as int, height as int, pos_x as int + 2, y as int + 3);
                lemma_pix_in_bounds(width as int, height as int, pos_x as int + 2, y as int + 7);
            }
            let j1 = (y + 3) * width + pos_x + 2;
            buffer[j1] = color;
            let j2 = (y + 7) * width + pos_x + 2;
            buffer[j2] = color;
            proof {
                assert forall|px: int, py: int|
                    0 <= px < width && 0 <= py < height implies buffer@[#[trigger] pix_idx(
                    width as int,
                    px,
                    py,
                )] == (if byte_pix(c, pos_x as int, y as int, px, py) {
                    color
                } else {
                    orig[pix_idx(width as int, px, py)]
                }) by {
                    lemma_pix_in_bounds(width as int, height as int, px, py);
                    if pix_idx(width as int, px, py) == pix_idx(
                        width as int,
                        pos_x as int + 2,
                        y as int + 3,
                    ) {
                        lemma_pix_injective(width as int, px, py, pos_x as int + 2, y as int + 3);
                    }
                    if pix_idx(width as int, px, py) == pix_idx(
                        width as int,
                        pos_x as int + 2,
                        y as int + 7,
                    ) {
                        lemma_pix_injective(width as int, px, py, pos_x as int + 2, y as int + 7);
                    }
                }
            }
        }
    }
    let ghost mid = buffer@;
    let next_x = if fits {
        pos_x + 8
    } else {
        pos_x
    };
    draw_glyphs(buffer, width, height, bytes, i + 1, next_x, y, color);
    proof {
        assert(bytes@.skip(i as int).drop_first() =~= bytes@.skip(i as int + 1));
        assert(bytes@.skip(i as int)[0] == bytes@[i as int]);
        assert forall|px: int, py: int|
            0 <= px < width && 0 <= py < height implies buffer@[#[trigger] pix_idx(
            width as int,
            px,
            py,
        )] == (if text_pix(
            bytes@.skip(i as int),
            pos_x as int,
            y as int,
            width as int,
            height as int,
            px,
            py,
        ) {
            color
        } else {
            orig[pix_idx(width as int, px, py)]
        }) by {
            lemma_pix_in_bounds(width as int, height as int, px, py);
            assert(mid[pix_idx(width as int, px, py)] == (if fits && byte_pix(
                c,
                pos_x as int,
                y as int,
                px,
                py,
            ) {
                color
            } else {
                orig[pix_idx(width as int, px, py)]
            }));
        }
    }
}

/// Draws `text` as fixed-width glyphs starting at `(x, y)`, pixel-exact per
/// `text_pix`: decimal digits and `:` are rendered, every other byte leaves
/// a blank cell, and glyphs that would not fit the surface are skipped.
pub fn draw_text(
    buffer: &mut Vec<u32>,
    width: usize,
    height: usize,
    text: &str,
    x: usize,
    y: usize,
    color: u32,
)
    requires
        old(buffer)@.len() == width * height,
        width <= 65536,
        height <= 65536,
        x <= 0x100000,
        y <= 0x100000,
    ensures
        final(buffer)@.len() == old(buffer)@.len(),
        forall|j: int|
            #![trigger final(buffer)@[j]]
            0 <= j < final(buffer)@.len() ==> final(buffer)@[j] == old(buffer)@[j]
                || final(buffer)@[j] == color,
        forall|px: int, py: int|
            #![trigger pix_idx(width as int, px, py)]
            0 <= px < width && 0 <= py < height ==> final(buffer)@[pix_idx(width as int, px, py)]
                == (if text_pix(
                text.spec_bytes(),
                x as int,
                y as int,
                width as int,
                height as int,
                px,
                py,
            ) {
                color
            } else {
                old(buffer)@[pix_idx(width as int, px, py)]
            }),
{
    let bytes = text.as_bytes();
    proof {
        assert(bytes@.skip(0) =~= bytes@);
    }
    draw_glyphs(buffer, width, height, bytes, 0, x, y, color);
}

} // verus!