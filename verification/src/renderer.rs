//! The drawing surface: a row-major `u32` framebuffer with silently clipped
//! primitives.

use vstd::prelude::*;

use vstd::string::StringSliceAdditionalSpecFns;

use crate::primitives;
use crate::primitives::in_rect;
use crate::primitives::pix_idx;
use crate::primitives::text_pix;

verus! {

/// The glyph bytes of a 24-hour clock reading: zero-padded `HH:MM`.
pub open spec fn clock_bytes(hour: int, minute: int) -> Seq<u8> {
    seq![
        (48 + hour / 10) as u8,
        (48 + hour % 10) as u8,
        58u8,
        (48 + minute / 10) as u8,
        (48 + minute % 10) as u8,
    ]
}

/// Background colour of a cleared frame.
pub const CLEAR_COLOUR: u32 = 0x001A1A1A;

/// A resizable framebuffer plus the primitives drawing into it.
pub struct Renderer {
    width: usize,
    height: usize,
    buffer: Vec<u32>,
}

impl Renderer {
    /// The buffer holds exactly one `u32` per pixel, and both dimensions stay
    /// within the machine bounds of the primitives (and of a 32-bit address
    /// space).
    pub open spec fn wf(self) -> bool {
        &&& self.spec_buffer().len() == self.spec_width() * self.spec_height()
        &&& self.spec_width() <= 65535
        &&& self.spec_height() <= 65535
    }

    pub closed spec fn spec_width(self) -> usize {
        self.width
    }

    pub closed spec fn spec_height(self) -> usize {
        self.height
    }

    pub closed spec fn spec_buffer(self) -> Seq<u32> {
        self.buffer@
    }

    /// A black surface of the given dimensions.
    pub fn new(width: usize, height: usize) -> (r: Self)
        requires
            width <= 65535,
            height <= 65535,
        ensures
            r.wf(),
            r.spec_width() == width,
            r.spec_height() == height,
            forall|j: int| 0 <= j < r.spec_buffer().len() ==> r.spec_buffer()[j] == 0,
    {
        proof {
            assert((width as int) * (height as int) < 0xFFFF_FFFF) by (nonlinear_arith)
                requires
                    width <= 65535,
                    height <= 65535,
            ;
        }
        let buffer: Vec<u32> = vec![0u32; width * height];
        Renderer { width, height, buffer }
    }

    /// Adopts new dimensions: the first `min(old, new)` buffer values are
    /// kept (rows are not re-wrapped) and any growth is zero-filled. Equal
    /// dimensions keep the surface untouched.
    pub fn resize(&mut self, width: usize, height: usize)
        requires
            old(self).wf(),
            width <= 65535,
            height <= 65535,
        ensures
            final(self).wf(),
            final(self).spec_width() == width,
            final(self).spec_height() == height,
            (width == old(self).spec_width() && height == old(self).spec_height())
                ==> *final(self) == *old(self),
            forall|j: int|
                0 <= j < final(self).spec_buffer().len() && j < old(self).spec_buffer().len()
                    ==> #[trigger] final(self).spec_buffer()[j] == old(self).spec_buffer()[j],
            forall|j: int|
                old(self).spec_buffer().len() <= j < final(self).spec_buffer().len()
                    ==> #[trigger] final(self).spec_buffer()[j] == 0,
    {
        if self.width != width || self.height != height {
            proof {
                assert((width as int) * (height as int) < 0xFFFF_FFFF) by (nonlinear_arith)
                    requires
                        width <= 65535,
                        height <= 65535,
                ;
            }
            let ghost pre = self.buffer@;
            self.width = width;
            self.height = height;
            self.buffer.resize(width * height, 0u32);
            proof {
                assert forall|j: int|
                    pre.len() <= j < self.buffer@.len() implies #[trigger] self.buffer@[j]
                    == 0 by {
                    assert(cloned(0u32, self.buffer@[j]));
                }
            }
        }
    }

    /// Fills the whole surface with the background colour.
    pub fn clear(&mut self)
        requires
            old(self).wf(),
        ensures
            final(self).wf(),
            final(self).spec_width() == old(self).spec_width(),
            final(self).spec_height() == old(self).spec_height(),
            final(self).spec_buffer().len() == old(self).spec_buffer().len(),
            forall|j: int|
                0 <= j < final(self).spec_buffer().len() ==> final(self).spec_buffer()[j]
                    == CLEAR_COLOUR,
    {
        let n = self.buffer.len();
        let mut i: usize = 0;
        while i < n
            invariant
                self.buffer@.len() == n,
                self.width == old(self).width,
                self.height == old(self).height,
                old(self).wf(),
                n == old(self).buffer@.len(),
                i <= n,
                forall|j: int| 0 <= j < i ==> self.buffer@[j] == CLEAR_COLOUR,
            decreases n - i,
        {
            self.buffer[i] = CLEAR_COLOUR;
            i = i + 1;
        }
    }

    /// Draws a clipped Bresenham line; touched pixels get `color`, the rest
    /// keep their value, and both endpoints, where in bounds, are painted.
    pub fn draw_line(&mut self, x1: usize, y1: isize, x2: usize, y2: isize, color: u32)
        requires
            old(self).wf(),
            x1 <= 0x100000,
            x2 <= 0x100000,
            -0x100000 <= y1 <= 0x100000,
            -0x100000 <= y2 <= 0x100000,
        ensures
            final(self).wf(),
            final(self).spec_width() == old(self).spec_width(),
            final(self).spec_height() == old(self).spec_height(),
            final(self).spec_buffer().len() == old(self).spec_buffer().len(),
            forall|j: int|
                #![trigger final(self).spec_buffer()[j]]
                0 <= j < final(self).spec_buffer().len() ==> final(self).spec_buffer()[j] == old(
                    self,
                ).spec_buffer()[j] || final(self).spec_buffer()[j] == color,
            x1 < old(self).spec_width() && 0 <= y1 < old(self).spec_height() ==> final(self).spec_buffer()[pix_idx(old(self).spec_width() as int, x1 as int, y1 as int)] == color,
            x2 < old(self).spec_width() && 0 <= y2 < old(self).spec_height() ==> final(self).spec_buffer()[pix_idx(old(self).spec_width() as int, x2 as int, y2 as int)] == color,
    {
        primitives::draw_line(&mut self.buffer, self.width, self.height, x1, y1, x2, y2, color);
    }

    /// Fills a clipped rectangle with `color`; the contract is pixel-exact.
    pub fn draw_rect(&mut self, x: usize, y: usize, w: usize, h: usize, color: u32)
        requires
            old(self).wf(),
            x <= 0x400000,
            y <= 0x400000,
            w <= 0x400000,
            h <= 0x400000,
        ensures
            final(self).wf(),
            final(self).spec_width() == old(self).spec_width(),
            final(self).spec_height() == old(self).spec_height(),
            final(self).spec_buffer().len() == old(self).spec_buffer().len(),
            forall|px: int, py: int|
                #![trigger pix_idx(old(self).spec_width() as int, px, py)]
                0 <= px < old(self).spec_width() && 0 <= py < old(self).spec_height()
                    ==> final(self).spec_buffer()[pix_idx(old(self).spec_width() as int, px, py)] == (if in_rect(
                    x as int,
                    y as int,
                    w as int,
                    h as int,
                    px,
                    py,
                ) {
                    color
                } else {
                    old(self).spec_buffer()[pix_idx(old(self).spec_width() as int, px, py)]
                }),
            forall|j: int|
                #![trigger final(self).spec_buffer()[j]]
                0 <= j < final(self).spec_buffer().len() ==> final(self).spec_buffer()[j] == old(
                    self,
                ).spec_buffer()[j] || final(self).spec_buffer()[j] == color,
    {
        primitives::draw_rect(&mut self.buffer, self.width, self.height, x, y, w, h, color);
    }

    /// Draws fixed-width glyph text (digits and `:`); touched pixels get
    /// `color`.
    pub fn draw_text(&mut self, text: &str, x: usize, y: usize, color: u32)
        requires
            old(self).wf(),
            x <= 0x100000,
            y <= 0x100000,
        ensures
            final(self).wf(),
            final(self).spec_width() == old(self).spec_width(),
            final(self).spec_height() == old(self).spec_height(),
            final(self).spec_buffer().len() == old(self).spec_buffer().len(),
            forall|j: int|
                #![trigger final(self).spec_buffer()[j]]
                0 <= j < final(self).spec_buffer().len() ==> final(self).spec_buffer()[j] == old(
                    self,
                ).spec_buffer()[j] || final(self).spec_buffer()[j] == color,
    {
        primitives::draw_text(&mut self.buffer, self.width, self.height, text, x, y, color);
    }

    /// Draws a 24-hour clock (`HH:MM`) in fixed-width glyphs at `(x, y)`,
    /// pixel-exact per `text_pix` of `clock_bytes`; glyphs that would not
    /// fit are skipped.
    pub fn draw_clock(&mut self, hour: u32, minute: u32, x: usize, y: usize, color: u32)
        requires
            old(self).wf(),
            hour < 24,
            minute < 60,
            x <= 0x100000,
            y <= 0x100000,
        ensures
            final(self).wf(),
            final(self).spec_width() == old(self).spec_width(),
            final(self).spec_height() == old(self).spec_height(),
            final(self).spec_buffer().len() == old(self).spec_buffer().len(),
            forall|j: int|
                #![trigger final(self).spec_buffer()[j]]
                0 <= j < final(self).spec_buffer().len() ==> final(self).spec_buffer()[j] == old(
                    self,
                ).spec_buffer()[j] || final(self).spec_buffer()[j] == color,
            forall|px: int, py: int|
                #![trigger pix_idx(old(self).spec_width() as int, px, py)]
                0 <= px < old(self).spec_width() && 0 <= py < old(self).spec_height()
                    ==> final(self).spec_buffer()[pix_idx(old(self).spec_width() as int, px, py)]
                    == (if text_pix(
                    clock_bytes(hour as int, minute as int),
                    x as int,
                    y as int,
                    old(self).spec_width() as int,
                    old(self).spec_height() as int,
                    px,
                    py,
                ) {
                    color
                } else {
                    old(self).spec_buffer()[pix_idx(old(self).spec_width() as int, px, py)]
                }),
    {
        let mut glyphs: Vec<u8> = Vec::new();
        glyphs.push(48 + (hour / 10) as u8);
        glyphs.push(48 + (hour % 10) as u8);
        glyphs.push(58);
        glyphs.push(48 + (minute / 10) as u8);
        glyphs.push(48 + (minute % 10) as u8);
        proof {
            assert(glyphs@ =~= clock_bytes(hour as int, minute as int));
            assert(glyphs@.skip(0) =~= glyphs@);
        }
        primitives::draw_glyphs(
            &mut self.buffer,
            self.width,
            self.height,
            glyphs.as_slice(),
            0,
            x,
            y,
            color,
        );
    }

    /// Sets one pixel, silently ignoring out-of-bounds coordinates.
    pub fn set_pixel(&mut self, x: usize, y: usize, color: u32)
        requires
            old(self).wf(),
        ensures
            final(self).wf(),
            final(self).spec_width() == old(self).spec_width(),
            final(self).spec_height() == old(self).spec_height(),
            final(self).spec_buffer().len() == old(self).spec_buffer().len(),
            x < old(self).spec_width() && y < old(self).spec_height() ==> 0 <= pix_idx(
                old(self).spec_width() as int,
                x as int,
                y as int,
            ) < old(self).spec_buffer().len(),
            x < old(self).spec_width() && y < old(self).spec_height()
                ==> final(self).spec_buffer() == old(self).spec_buffer().update(
                pix_idx(old(self).spec_width() as int, x as int, y as int),
                color,
            ),
            !(x < old(self).spec_width() && y < old(self).spec_height())
                ==> final(self).spec_buffer() == old(self).spec_buffer(),
    {
        let _n = self.buffer.len();
        if x < self.width && y < self.height {
            proof {
                crate::primitives::lemma_pix_in_bounds(
                    self.width as int,
                    self.height as int,
                    x as int,
                    y as int,
                );
            }
            let j = y * self.width + x;
            self.buffer[j] = color;
        }
    }

    /// Read-only view of the framebuffer, one `u32` per pixel.
    pub fn buffer(&self) -> (r: &Vec<u32>)
        ensures
            r@ == self.spec_buffer(),
    {
        &self.buffer
    }

    /// Current `(width, height)` of the surface.
    pub fn dimensions(&self) -> (r: (usize, usize))
        requires
            self.wf(),
        ensures
            r.0 == self.spec_width(),
            r.1 == self.spec_height(),
            r.0 <= 65535,
            r.1 <= 65535,
    {
        (self.width, self.height)
    }
}

} // verus!
