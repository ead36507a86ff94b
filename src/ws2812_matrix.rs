//! A single 8x8 matrix of WS2812 LEDs with character drawing. `set` ignores
//! a position off the matrix, `get` requires one on it, and characters are
//! clipped at its edges.
use vstd::prelude::*;

use crate::font::{basic_font_glyph, basic_glyph, glyph_lit};
use crate::matrix::draw_lsb_glyph;
use crate::matrix_1d::{lemma_panel_pixels_len, Panel, PanelIterator};
pub use crate::orientation::Orientation;
use crate::orientation::{raster, HEIGHT, WIDTH};
use crate::rgb::{black, Rgb};

verus! {

broadcast use lemma_panel_pixels_len;

/// One 8x8 matrix of stored pixels with the orientation it is read out in.
pub struct Ws2812Matrix {
    panel: Panel,
}

impl Ws2812Matrix {
    /// The stored pixels, row-major: (x, y) is index x + 8 * y.
    pub closed spec fn pixels(&self) -> Seq<Rgb> {
        self.panel.pixels()
    }

    pub closed spec fn facing(&self) -> Orientation {
        self.panel.facing()
    }

    /// A dark matrix read out in `orientation`.
    pub fn new(orientation: Orientation) -> (m: Self)
        ensures
            m.facing() == orientation,
            m.pixels().len() == 64,
            forall|j: int| 0 <= j < 64 ==> #[trigger] m.pixels()[j] == black(),
    {
        Self { panel: Panel::new(orientation) }
    }

    /// Sets every pixel to `c`.
    pub fn fill(&mut self, c: Rgb)
        ensures
            final(self).facing() == old(self).facing(),
            final(self).pixels().len() == 64,
            forall|j: int| 0 <= j < 64 ==> #[trigger] final(self).pixels()[j] == c,
    {
        self.panel.fill(c);
    }

    /// Lights in `colour` the pixels of a font glyph (rows least significant
    /// bit first) moved `offset` columns to the right.
    pub fn draw_font_glyph(&mut self, glyph: [u8; 8], colour: Rgb, offset: i8)
        ensures
            final(self).facing() == old(self).facing(),
            final(self).pixels().len() == 64,
            forall|j: int|
                0 <= j < 64 ==> #[trigger] final(self).pixels()[j] == if glyph_lit(
                    glyph@,
                    j % 8 - offset,
                    j / 8,
                ) {
                    colour
                } else {
                    old(self).pixels()[j]
                },
    {
        draw_lsb_glyph(&mut self.panel, glyph, colour, offset);
    }

    /// Draws character `c` of the Basic Latin font moved `offset` columns to
    /// the right; a character the font lacks draws nothing.
    pub fn draw_char(&mut self, c: char, colour: Rgb, offset: i8)
        ensures
            final(self).facing() == old(self).facing(),
            final(self).pixels().len() == 64,
            forall|j: int|
                0 <= j < 64 ==> #[trigger] final(self).pixels()[j] == if (c as u32) < 128 && glyph_lit(
                    basic_glyph(c),
                    j % 8 - offset,
                    j / 8,
                ) {
                    colour
                } else {
                    old(self).pixels()[j]
                },
    {
        if let Some(glyph) = basic_font_glyph(c) {
            self.draw_font_glyph(glyph, colour, offset);
        }
    }

    pub fn set_orientation(&mut self, orientation: Orientation)
        ensures
            final(self).facing() == orientation,
            final(self).pixels().len() == 64,
            final(self).pixels() == old(self).pixels(),
    {
        self.panel.set_orientation(orientation);
    }

    /// Sets pixel (x, y); a position off the matrix is ignored.
    pub fn set(&mut self, xy: (usize, usize), c: Rgb)
        ensures
            final(self).facing() == old(self).facing(),
            final(self).pixels().len() == 64,
            final(self).pixels() == if xy.0 < 8 && xy.1 < 8 {
                old(self).pixels().update(xy.0 + 8 * xy.1, c)
            } else {
                old(self).pixels()
            },
    {
        if xy.0 < WIDTH && xy.1 < HEIGHT {
            self.panel.put(xy.0 + xy.1 * WIDTH, c);
        }
    }

    /// The stored colour of pixel (x, y), which must lie on the matrix.
    pub fn get(&self, xy: (usize, usize)) -> (c: Rgb)
        requires
            xy.0 < 8,
            xy.1 < 8,
        ensures
            self.pixels().len() == 64,
            c == self.pixels()[xy.0 + 8 * xy.1],
    {
        self.panel.at(xy.0 + xy.1 * WIDTH)
    }

    /// The colours in the order they are sent, one per call of `next`.
    pub fn iter(&self) -> (it: Ws2812MatrixIterator<'_>)
        ensures
            it.frame() == raster(self.pixels(), self.facing()),
            it.position() == 0,
    {
        Ws2812MatrixIterator { inner: self.panel.iter() }
    }
}

/// Reads a matrix out in raster order.
pub struct Ws2812MatrixIterator<'a> {
    inner: PanelIterator<'a>,
}

impl<'a> Ws2812MatrixIterator<'a> {
    /// Everything the iterator yields, from its start.
    pub closed spec fn frame(&self) -> Seq<Rgb> {
        self.inner.frame()
    }

    /// How many colours have been yielded.
    pub closed spec fn position(&self) -> int {
        self.inner.position()
    }

    /// The next colour, or `None` once all 64 have been yielded.
    pub fn next(&mut self) -> (c: Option<Rgb>)
        ensures
            final(self).frame() == old(self).frame(),
            old(self).position() < 64 ==> c == Some(old(self).frame()[old(self).position()])
                && final(self).position() == old(self).position() + 1,
            old(self).position() >= 64 ==> c is None && final(self).position() == old(self).position(),
    {
        self.inner.next()
    }
}

} // verus!
