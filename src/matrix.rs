//! A single 8x8 matrix with glyph, character and bitmap drawing. `set`
//! ignores a position off the matrix, `get` requires one on it, and glyphs
//! and characters are clipped at its edges.
use vstd::prelude::*;

use crate::font::{basic_font_glyph, basic_glyph, bit_set, glyph_lit, row_bit};
use crate::matrix_1d::lemma_panel_pixels_len;
use crate::matrix_1d::{Panel, PanelIterator};
pub use crate::orientation::Orientation;
use crate::orientation::{raster, HEIGHT, WIDTH};
use crate::rgb::{black, off, Rgb};

verus! {

broadcast use lemma_panel_pixels_len;

/// Whether pixel (x, y) of a glyph whose rows are most significant bit first
/// (bit 7 lights column 0) is lit.
pub open spec fn msb_glyph_lit(g: Seq<u8>, x: int, y: int) -> bool {
    0 <= x < 8 && 0 <= y < 8 && y < g.len() && row_bit(g[y], 7 - x)
}

/// The colour that `key` stands for in `map`: that of its first entry with
/// this key, or dark if there is none.
pub open spec fn colour_for(map: Seq<(char, Rgb)>, key: char) -> Rgb
    decreases map.len(),
{
    if map.len() == 0 {
        black()
    } else if map[0].0 == key {
        map[0].1
    } else {
        colour_for(map.drop_first(), key)
    }
}

proof fn lemma_shr_bit(v: u8, k: u8, x: u8)
    by (bit_vector)
    requires
        1 <= k < 8,
        x < 8,
    ensures
        ((v >> k) >> x) & 1u8 == 1u8 <==> (x + k < 8 && (v >> ((x + k) as u8)) & 1u8 == 1u8),
{
}

proof fn lemma_shl_bit(v: u8, k: u8, x: u8)
    by (bit_vector)
    requires
        1 <= k < 8,
        x < 8,
    ensures
        ((v << k) >> x) & 1u8 == 1u8 <==> (x >= k && (v >> ((x - k) as u8)) & 1u8 == 1u8),
{
}

/// Moves the bits of a glyph row `offset` columns: to higher bits for a
/// positive offset, to lower bits for a negative one; bits moved past either
/// end are lost.
fn shift(value: u8, offset: i8) -> (r: u8)
    ensures
        forall|x: int|
            0 <= x < 8 ==> (#[trigger] row_bit(r, x) <==> (0 <= x - offset < 8 && row_bit(
                value,
                x - offset,
            ))),
{
    if offset < -7 {
        assert forall|x: int| 0 <= x < 8 implies !#[trigger] row_bit(0u8, x) by {
            let xb = x as u8;
            assert((0u8 >> xb) & 1u8 == 0u8) by (bit_vector);
        }
        0
    } else if offset < 0 {
        let k = (-offset) as u8;
        let r = value >> k;
        assert forall|x: int| 0 <= x < 8 implies #[trigger] row_bit(r, x) <==> (0 <= x - offset < 8
            && row_bit(value, x - offset)) by {
            lemma_shr_bit(value, k, x as u8);
        }
        r
    } else if offset == 0 {
        value
    } else if offset < 8 {
        let k = offset as u8;
        let r = value << k;
        assert forall|x: int| 0 <= x < 8 implies #[trigger] row_bit(r, x) <==> (0 <= x - offset < 8
            && row_bit(value, x - offset)) by {
            lemma_shl_bit(value, k, x as u8);
        }
        r
    } else {
        assert forall|x: int| 0 <= x < 8 implies !#[trigger] row_bit(0u8, x) by {
            let xb = x as u8;
            assert((0u8 >> xb) & 1u8 == 0u8) by (bit_vector);
        }
        0
    }
}

/// Lights in `colour` the pixels of `glyph` (rows least significant bit
/// first) moved `offset` columns to the right; pixels moved off the panel are
/// dropped and unlit pixels keep their colour.
pub(crate) fn draw_lsb_glyph(panel: &mut Panel, glyph: [u8; 8], colour: Rgb, offset: i8)
    ensures
        final(panel).facing() == old(panel).facing(),
        forall|j: int|
            0 <= j < 64 ==> #[trigger] final(panel).pixels()[j] == if glyph_lit(
                glyph@,
                j % 8 - offset,
                j / 8,
            ) {
                colour
            } else {
                old(panel).pixels()[j]
            },
{
    let mut y: usize = 0;
    while y < HEIGHT
        invariant
            y <= 8,
            panel.facing() == old(panel).facing(),
            forall|j: int|
                0 <= j < 64 ==> #[trigger] panel.pixels()[j] == if glyph_lit(glyph@, j % 8 - offset, j / 8)
                    && j / 8 < y {
                    colour
                } else {
                    old(panel).pixels()[j]
                },
        decreases 8 - y,
    {
        let row = shift(glyph[y], offset);
        let mut x: u8 = 0;
        while x < 8
            invariant
                y < 8,
                x <= 8,
                forall|k: int| 0 <= k < 8 ==> #[trigger] row_bit(row, k) == (0 <= k - offset < 8 && row_bit(
                    glyph@[y as int],
                    k - offset,
                )),
                panel.facing() == old(panel).facing(),
                forall|j: int|
                    0 <= j < 64 ==> #[trigger] panel.pixels()[j] == if glyph_lit(glyph@, j % 8 - offset, j / 8)
                        && (j / 8 < y || (j / 8 == y && j % 8 < x)) {
                        colour
                    } else {
                        old(panel).pixels()[j]
                    },
            decreases 8 - x,
        {
            if bit_set(row, x) {
                panel.put(x as usize + y * WIDTH, colour);
            }
            x = x + 1;
        }
        y = y + 1;
    }
}

/// The colour that `key` stands for in `colourmap`.
fn colour_of(colourmap: &[(char, Rgb)], key: char) -> (c: Rgb)
    ensures
        c == colour_for(colourmap@, key),
{
    let mut k: usize = 0;
    assert(colourmap@.subrange(0, colourmap@.len() as int) =~= colourmap@);
    while k < colourmap.len()
        invariant
            k <= colourmap@.len(),
            colour_for(colourmap@, key) == colour_for(
                colourmap@.subrange(k as int, colourmap@.len() as int),
                key,
            ),
        decreases colourmap@.len() - k,
    {
        let entry = colourmap[k];
        assert(colourmap@.subrange(k as int, colourmap@.len() as int).drop_first() =~= colourmap@.subrange(
            k + 1,
            colourmap@.len() as int,
        ));
        if entry.0 == key {
            return entry.1;
        }
        k = k + 1;
    }
    off()
}

/// One 8x8 matrix of stored pixels with the orientation it is read out in.
pub struct Matrix {
    panel: Panel,
}

impl Matrix {
    /// The stored pixels, row-major: (x, y) is index x + 8 * y.
    pub closed spec fn pixels(&self) -> Seq<Rgb> {
        self.panel.pixels()
    }

    pub closed spec fn facing(&self) -> Orientation {
        self.panel.facing()
    }

    /// A dark matrix read out in `orientation`.
    pub fn new(orientation: Orientation) -> (m: Self)
        ensures
            m.facing() == orientation,
            m.pixels().len() == 64,
            forall|j: int| 0 <= j < 64 ==> #[trigger] m.pixels()[j] == black(),
    {
        Self { panel: Panel::new(orientation) }
    }

    /// Sets every pixel to `c`.
    pub fn fill(&mut self, c: Rgb)
        ensures
            final(self).facing() == old(self).facing(),
            final(self).pixels().len() == 64,
            forall|j: int| 0 <= j < 64 ==> #[trigger] final(self).pixels()[j] == c,
    {
        self.panel.fill(c);
    }

    /// Lights in `colour` the pixels of `glyph`, whose rows are most
    /// significant bit first, moved `offset` columns to the right; pixels
    /// moved off the matrix are dropped and unlit pixels keep their colour.
    pub fn draw_glyph(&mut self, glyph: [u8; 8], colour: Rgb, offset: i8)
        ensures
            final(self).facing() == old(self).facing(),
            final(self).pixels().len() == 64,
            forall|j: int|
                0 <= j < 64 ==> #[trigger] final(self).pixels()[j] == if msb_glyph_lit(
                    glyph@,
                    j % 8 - offset,
                    j / 8,
                ) {
                    colour
                } else {
                    old(self).pixels()[j]
                },
    {
        let mut y: usize = 0;
        while y < HEIGHT
            invariant
                y <= 8,
                self.facing() == old(self).facing(),
                forall|j: int|
                    0 <= j < 64 ==> #[trigger] self.pixels()[j] == if msb_glyph_lit(
                        glyph@,
                        j % 8 - offset,
                        j / 8,
                    ) && j / 8 < y {
                        colour
                    } else {
                        old(self).pixels()[j]
                    },
            decreases 8 - y,
        {
            let row = glyph[y];
            let mut x: i16 = 0;
            while x < 8
                invariant
                    y < 8,
                    0 <= x <= 8,
                    row == glyph@[y as int],
                    self.facing() == old(self).facing(),
                    forall|j: int|
                        0 <= j < 64 ==> #[trigger] self.pixels()[j] == if msb_glyph_lit(
                            glyph@,
                            j % 8 - offset,
                            j / 8,
                        ) && (j / 8 < y || (j / 8 == y && j % 8 < x)) {
                            colour
                        } else {
                            old(self).pixels()[j]
                        },
                decreases 8 - x,
            {
                let src: i16 = x - offset as i16;
                let ghost j = x + 8 * y;
                assert(j % 8 == x && j / 8 == y);
                let ghost before = self.pixels();
                let lit = 0 <= src && src < 8 && bit_set(row, (7 - src) as u8);
                if lit {
                    self.panel.put(x as usize + y * WIDTH, colour);
                    assert(self.pixels() == before.update(j, colour));
                } else {
                    assert(self.pixels() == before);
                }
                assert(lit == msb_glyph_lit(glyph@, j % 8 - offset, j / 8));
                x = x + 1;
            }
            y = y + 1;
        }
    }

    /// Lights in `colour` the pixels of a font glyph (rows least significant
    /// bit first) moved `offset` columns to the right.
    pub fn draw_font_glyph(&mut self, glyph: [u8; 8], colour: Rgb, offset: i8)
        ensures
            final(self).facing() == old(self).facing(),
            final(self).pixels().len() == 64,
            forall|j: int|
                0 <= j < 64 ==> #[trigger] final(self).pixels()[j] == if glyph_lit(
                    glyph@,
                    j % 8 - offset,
                    j / 8,
                ) {
                    colour
                } else {
                    old(self).pixels()[j]
                },
    {
        draw_lsb_glyph(&mut self.panel, glyph, colour, offset);
    }

    /// Draws character `c` of the Basic Latin font moved `offset` columns to
    /// the right; a character the font lacks draws nothing.
    pub fn draw_char(&mut self, c: char, colour: Rgb, offset: i8)
        ensures
            final(self).facing() == old(self).facing(),
            final(self).pixels().len() == 64,
            forall|j: int|
                0 <= j < 64 ==> #[trigger] final(self).pixels()[j] == if (c as u32) < 128 && glyph_lit(
                    basic_glyph(c),
                    j % 8 - offset,
                    j / 8,
                ) {
                    colour
                } else {
                    old(self).pixels()[j]
                },
    {
        if let Some(glyph) = basic_font_glyph(c) {
            self.draw_font_glyph(glyph, colour, offset);
        }
    }

    /// Paints the first eight characters of each of the eight rows of
    /// `bitmap`, each in the colour `colourmap` gives its character (dark for
    /// a character it lacks); pixels past the end of a shorter row keep their
    /// colour.
    pub fn draw_bitmap(&mut self, bitmap: &[&str; 8], colourmap: &[(char, Rgb)], _offset: i8)
        ensures
            final(self).facing() == old(self).facing(),
            final(self).pixels().len() == 64,
            forall|j: int|
                0 <= j < 64 ==> #[trigger] final(self).pixels()[j] == if j % 8 < bitmap@[j / 8]@.len() {
                    colour_for(colourmap@, bitmap@[j / 8]@[j % 8])
                } else {
                    old(self).pixels()[j]
                },
    {
        let mut y: usize = 0;
        while y < HEIGHT
            invariant
                y <= 8,
                self.facing() == old(self).facing(),
                forall|j: int|
                    0 <= j < 64 ==> #[trigger] self.pixels()[j] == if j / 8 < y && j % 8 < bitmap@[j
                        / 8]@.len() {
                        colour_for(colourmap@, bitmap@[j / 8]@[j % 8])
                    } else {
                        old(self).pixels()[j]
                    },
            decreases 8 - y,
        {
            let row: &str = bitmap[y];
            let mut x: usize = 0;
            for c in it: row.chars()
                invariant
                    y < 8,
                    row@ == bitmap@[y as int]@,
                    it.seq() == row@,
                    x <= 8,
                    x == it.index() || (x == 8 && it.index() >= 8),
                    self.facing() == old(self).facing(),
                    forall|j: int|
                        0 <= j < 64 ==> #[trigger] self.pixels()[j] == if (j / 8 < y || (j / 8 == y && j % 8
                            < x)) && j % 8 < bitmap@[j / 8]@.len() {
                            colour_for(colourmap@, bitmap@[j / 8]@[j % 8])
                        } else {
                            old(self).pixels()[j]
                        },
            {
                if x < WIDTH {
                    let colour = colour_of(colourmap, c);
                    let ghost before = self.pixels();
                    self.panel.put(x + y * WIDTH, colour);
                    assert(self.pixels() == before.update(x + 8 * y, colour));
                    assert((x + 8 * y) % 8 == x && (x + 8 * y) / 8 == y);
                    x = x + 1;
                }
            }
            y = y + 1;
        }
    }

    pub fn set_orientation(&mut self, orientation: Orientation)
        ensures
            final(self).facing() == orientation,
            final(self).pixels().len() == 64,
            final(self).pixels() == old(self).pixels(),
    {
        self.panel.set_orientation(orientation);
    }

    /// Sets pixel (x, y); a position off the matrix is ignored.
    pub fn set(&mut self, xy: (usize, usize), c: Rgb)
        ensures
            final(self).facing() == old(self).facing(),
            final(self).pixels().len() == 64,
            final(self).pixels() == if xy.0 < 8 && xy.1 < 8 {
                old(self).pixels().update(xy.0 + 8 * xy.1, c)
            } else {
                old(self).pixels()
            },
    {
        if xy.0 < WIDTH && xy.1 < HEIGHT {
            self.panel.put(xy.0 + xy.1 * WIDTH, c);
        }
    }

    /// The stored colour of pixel (x, y), which must lie on the matrix.
    pub fn get(&self, xy: (usize, usize)) -> (c: Rgb)
        requires
            xy.0 < 8,
            xy.1 < 8,
        ensures
            self.pixels().len() == 64,
            c == self.pixels()[xy.0 + 8 * xy.1],
    {
        self.panel.at(xy.0 + xy.1 * WIDTH)
    }

    /// The colours in the order they are sent, one per call of `next`.
    pub fn iter(&self) -> (it: MatrixIterator<'_>)
        ensures
            it.frame() == raster(self.pixels(), self.facing()),
            it.position() == 0,
    {
        MatrixIterator { inner: self.panel.iter() }
    }
}

/// Reads a matrix out in raster order.
pub struct MatrixIterator<'a> {
    inner: PanelIterator<'a>,
}

impl<'a> MatrixIterator<'a> {
    /// Everything the iterator yields, from its start.
    pub closed spec fn frame(&self) -> Seq<Rgb> {
        self.inner.frame()
    }

    /// How many colours have been yielded.
    pub closed spec fn position(&self) -> int {
        self.inner.position()
    }

    /// The next colour, or `None` once all 64 have been yielded.
    pub fn next(&mut self) -> (c: Option<Rgb>)
        ensures
            final(self).frame() == old(self).frame(),
            old(self).position() < 64 ==> c == Some(old(self).frame()[old(self).position()])
                && final(self).position() == old(self).position() + 1,
            old(self).position() >= 64 ==> c is None && final(self).position() == old(self).position(),
    {
        self.inner.next()
    }
}

} // verus!
