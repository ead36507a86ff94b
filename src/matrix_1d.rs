//! A horizontal strip of 8x8 panels addressed as one (8 * N) x 8 surface.
//! Writes outside the surface are dropped, so that animation arithmetic may
//! pass through off-screen positions.
use vstd::prelude::*;

use crate::font::{basic_font_glyph, basic_glyph, bit_set, glyph_lit};
pub use crate::orientation::{Orientation, HEIGHT, PANEL_PIXELS, WIDTH};
use crate::orientation::{raster, source_index_of};
use crate::rgb::{black, off, transformed_all, Rgb, RgbTransform};

verus! {

/// Horizontal distance between the left edges of two consecutive characters.
pub const CHAR_WIDTH: usize = 8;

/// The longest text that can scroll: its width must fit an `i32` coordinate.
pub const MAX_SCROLL_CHARS: usize = 0x0fff_ffff;

/// The most panels a strip may have: its width must stay far inside the
/// range of the `i32` coordinates it is addressed with.
pub const MAX_PANELS: usize = 0x100_0000;

/// One 8x8 panel: its stored pixels, row-major, and the orientation in which
/// it is read out.
#[derive(Clone, Copy, Debug)]
pub struct Panel {
    leds: [Rgb; PANEL_PIXELS],
    orientation: Orientation,
}

/// The colours of a panel in the order they are sent: raster index `i` shows
/// the stored pixel that the orientation maps it to.
pub open spec fn panel_raster(p: Panel) -> Seq<Rgb> {
    raster(p.pixels(), p.facing())
}

/// A panel holds exactly 64 pixels.
pub broadcast proof fn lemma_panel_pixels_len(p: Panel)
    ensures
        #[trigger] p.pixels().len() == PANEL_PIXELS,
{
}

impl Panel {
    /// The stored pixels, row-major: (x, y) is index x + 8 * y.
    pub closed spec fn pixels(&self) -> Seq<Rgb> {
        self.leds@
    }

    pub closed spec fn facing(&self) -> Orientation {
        self.orientation
    }

    pub open spec fn is_dark(&self) -> bool {
        forall|j: int| 0 <= j < 64 ==> #[trigger] self.pixels()[j] == black()
    }

    /// A dark panel read out in `orientation`.
    pub fn new(orientation: Orientation) -> (p: Self)
        ensures
            p.facing() == orientation,
            p.is_dark(),
    {
        let o = off();
        let mut p = Self { leds: [o; PANEL_PIXELS], orientation };
        p.fill(o);
        p
    }

    pub fn set_orientation(&mut self, orientation: Orientation)
        ensures
            final(self).facing() == orientation,
            final(self).pixels() == old(self).pixels(),
    {
        self.orientation = orientation;
    }

    /// Sets every pixel to `c`.
    pub(crate) fn fill(&mut self, c: Rgb)
        ensures
            final(self).facing() == old(self).facing(),
            forall|j: int| 0 <= j < 64 ==> #[trigger] final(self).pixels()[j] == c,
    {
        let mut j: usize = 0;
        while j < PANEL_PIXELS
            invariant
                j <= PANEL_PIXELS,
                self.orientation == old(self).orientation,
                forall|k: int| 0 <= k < j ==> #[trigger] self.leds@[k] == c,
            decreases PANEL_PIXELS - j,
        {
            self.leds[j] = c;
            j = j + 1;
        }
    }

    /// Turns every pixel off.
    pub fn clear(&mut self)
        ensures
            final(self).facing() == old(self).facing(),
            final(self).is_dark(),
    {
        self.fill(off());
    }

    /// The stored pixel at index `j`.
    pub(crate) fn at(&self, j: usize) -> (c: Rgb)
        requires
            j < PANEL_PIXELS,
        ensures
            c == self.pixels()[j as int],
    {
        self.leds[j]
    }

    /// Stores `c` at index `j`.
    pub(crate) fn put(&mut self, j: usize, c: Rgb)
        requires
            j < PANEL_PIXELS,
        ensures
            final(self).facing() == old(self).facing(),
            final(self).pixels() == old(self).pixels().update(j as int, c),
    {
        self.leds[j] = c;
    }

    /// The colours in the order they are sent, one per call of `next`.
    pub fn iter(&self) -> (it: PanelIterator<'_>)
        ensures
            it.frame() == panel_raster(*self),
            it.position() == 0,
    {
        PanelIterator { panel: self, index: 0 }
    }

    /// The colour at raster index `i`.
    pub(crate) fn raster_at(&self, i: usize) -> (c: Rgb)
        requires
            i < PANEL_PIXELS,
        ensures
            c == panel_raster(*self)[i as int],
    {
        self.leds[source_index_of(self.orientation, i)]
    }
}

impl Default for Panel {
    fn default() -> (p: Self)
        ensures
            p.facing() == Orientation::North,
            p.is_dark(),
    {
        Panel::new(Orientation::North)
    }
}

/// Reads a panel out in raster order.
pub struct PanelIterator<'a> {
    panel: &'a Panel,
    index: usize,
}

impl<'a> PanelIterator<'a> {
    /// Everything the iterator yields, from its start.
    pub closed spec fn frame(&self) -> Seq<Rgb> {
        panel_raster(*self.panel)
    }

    /// How many colours have been yielded.
    pub closed spec fn position(&self) -> int {
        self.index as int
    }

    /// The next colour, or `None` once all 64 have been yielded.
    pub fn next(&mut self) -> (c: Option<Rgb>)
        ensures
            final(self).frame() == old(self).frame(),
            old(self).position() < 64 ==> c == Some(old(self).frame()[old(self).position()])
                && final(self).position() == old(self).position() + 1,
            old(self).position() >= 64 ==> c is None && final(self).position() == old(self).position(),
    {
        if self.index < PANEL_PIXELS {
            let out = self.panel.raster_at(self.index);
            self.index = self.index + 1;
            Some(out)
        } else {
            None
        }
    }
}

/// The positions, first to last, at which a text of `len` characters is
/// drawn to scroll it from the right edge of a surface `8 * n` wide until it
/// has left on the left.
pub open spec fn scroll_positions(n: int, len: int) -> Seq<int> {
    Seq::new((8 * n + 8 * len) as nat, |i: int| 8 * n - 1 - i)
}

/// The left edges of a scrolling text, from right to left.
pub struct ScrollIter {
    low: i32,
    next_above: i32,
}

impl ScrollIter {
    /// The positions still to come, first to last.
    pub closed spec fn remaining(&self) -> Seq<int> {
        Seq::new(
            if self.next_above > self.low { (self.next_above - self.low) as nat } else { 0 },
            |i: int| self.next_above - 1 - i,
        )
    }

    /// A sweep with no positions left.
    pub(crate) fn finished() -> (it: Self)
        ensures
            it.remaining().len() == 0,
    {
        ScrollIter { low: 0, next_above: 0 }
    }

    /// The next position, or `None` once the sweep is over.
    pub fn next(&mut self) -> (x: Option<i32>)
        ensures
            old(self).remaining().len() > 0 ==> x is Some && x->0 == old(self).remaining()[0]
                && final(self).remaining() == old(self).remaining().drop_first(),
            old(self).remaining().len() == 0 ==> x is None && final(self).remaining().len() == 0,
    {
        if self.next_above > self.low {
            self.next_above = self.next_above - 1;
            assert(self.remaining() =~= old(self).remaining().drop_first());
            Some(self.next_above)
        } else {
            None
        }
    }
}

/// The panels of the surface, left to right.
#[derive(Clone, Copy, Debug)]
pub struct Matrix1D<const N: usize> {
    panels: [Panel; N],
}

/// The colours of the whole surface in the order they are sent: each panel's
/// raster in turn.
pub open spec fn strip_raster<const N: usize>(m: Matrix1D<N>) -> Seq<Rgb> {
    Seq::new((64 * N) as nat, |k: int| panel_raster(m.panel(k / 64))[k % 64])
}

/// Whether the text `t`, drawn with its left edge at 0 and its top at 0,
/// lights the pixel (dx, dy).
pub open spec fn text_lit(t: Seq<char>, dx: int, dy: int) -> bool {
    let i = dx / 8;
    &&& 0 <= dx
    &&& i < t.len()
    &&& (t[i] as u32) < 128
    &&& glyph_lit(basic_glyph(t[i]), dx % 8, dy)
}

impl<const N: usize> Matrix1D<N> {
    /// Panel `i`, counting from the left.
    pub closed spec fn panel(&self, i: int) -> Panel {
        self.panels@[i]
    }

    pub open spec fn in_bounds(x: int, y: int) -> bool {
        0 <= x < 8 * N && 0 <= y < 8
    }

    /// The colour stored for surface pixel (x, y): panel x / 8, column x % 8.
    pub open spec fn pixel(&self, x: int, y: int) -> Rgb {
        self.panel(x / 8).pixels()[x % 8 + 8 * y]
    }

    pub open spec fn same_orientations(&self, other: Self) -> bool {
        forall|i: int| 0 <= i < N ==> (#[trigger] self.panel(i)).facing() == other.panel(i).facing()
    }

    /// N dark panels read out North.
    pub fn new() -> (m: Self)
        ensures
            forall|i: int| 0 <= i < N ==> (#[trigger] m.panel(i)).facing() == Orientation::North
                && m.panel(i).is_dark(),
    {
        let p = Panel::default();
        let panels = [p; N];
        Self { panels }
    }

    pub fn from_panels(panels: [Panel; N]) -> (m: Self)
        ensures
            forall|i: int| 0 <= i < N ==> #[trigger] m.panel(i) == panels@[i],
    {
        Self { panels }
    }

    /// Turns every pixel off; orientations stay.
    pub fn clear(&mut self)
        ensures
            final(self).same_orientations(*old(self)),
            forall|x: int, y: int| Self::in_bounds(x, y) ==> #[trigger] final(self).pixel(x, y) == black(),
    {
        let mut i: usize = 0;
        while i < N
            invariant
                i <= N,
                forall|k: int| 0 <= k < N ==> (#[trigger] self.panels@[k]).orientation == old(self).panels@[k].orientation,
                forall|k: int| 0 <= k < i ==> (#[trigger] self.panels@[k]).is_dark(),
            decreases N - i,
        {
            let mut p = self.panels[i];
            p.clear();
            self.panels[i] = p;
            i = i + 1;
        }
        assert forall|x: int, y: int| Self::in_bounds(x, y) implies #[trigger] self.pixel(x, y) == black() by {
            assert(self.panel(x / 8).is_dark());
            assert(0 <= x % 8 + 8 * y < 64);
        }
    }

    /// The stored colour of an on-surface pixel.
    pub(crate) fn get_pixel(&self, x: usize, y: usize) -> (c: Rgb)
        requires
            Self::in_bounds(x as int, y as int),
        ensures
            c == self.pixel(x as int, y as int),
    {
        self.panels[x / WIDTH].at(x % WIDTH + y * WIDTH)
    }

    /// Stores `c` for an on-surface pixel.
    pub(crate) fn put_pixel(&mut self, x: usize, y: usize, c: Rgb)
        requires
            Self::in_bounds(x as int, y as int),
        ensures
            final(self).same_orientations(*old(self)),
            forall|p: int, q: int| Self::in_bounds(p, q) ==> #[trigger] final(self).pixel(p, q) == if p
                == x && q == y {
                c
            } else {
                old(self).pixel(p, q)
            },
    {
        let i = x / WIDTH;
        let j = x % WIDTH + y * WIDTH;
        let mut p = self.panels[i];
        p.put(j, c);
        self.panels[i] = p;
        assert forall|p: int, q: int| Self::in_bounds(p, q) implies #[trigger] self.pixel(p, q) == if p
            == x && q == y {
            c
        } else {
            old(self).pixel(p, q)
        } by {
            if p / 8 == i && p % 8 + 8 * q == j {
                assert(p == x && q == y);
            }
        }
    }

    /// Sets pixel (x, y) to `rgb`; a position off the surface is ignored.
    pub fn set(&mut self, xy: (i32, i32), rgb: Rgb)
        ensures
            final(self).same_orientations(*old(self)),
            forall|p: int, q: int| Self::in_bounds(p, q) ==> #[trigger] final(self).pixel(p, q) == if p
                == xy.0 && q == xy.1 {
                rgb
            } else {
                old(self).pixel(p, q)
            },
    {
        let (x, y) = xy;
        if 0 <= y && y < HEIGHT as i32 && 0 <= x && (x as usize) / WIDTH < N {
            self.put_pixel(x as usize, y as usize, rgb);
        }
    }

    /// Applies the transforms of `t`, in order, to every on-surface pixel of
    /// the rectangle with corners `from` (inclusive) and `to` (exclusive).
    pub fn transform(&mut self, from: (i32, i32), to: (i32, i32), t: &[RgbTransform])
        ensures
            final(self).same_orientations(*old(self)),
            forall|p: int, q: int| Self::in_bounds(p, q) ==> #[trigger] final(self).pixel(p, q) == if from.0
                <= p < to.0 && from.1 <= q < to.1 {
                transformed_all(old(self).pixel(p, q), t@)
            } else {
                old(self).pixel(p, q)
            },
    {
        let (x1, y1) = from;
        let (x2, y2) = to;
        let mut x: i32 = if x1 < 0 { 0 } else { x1 };
        while x < x2 && (x as usize) / WIDTH < N
            invariant
                0 <= x,
                x1 <= x,
                self.same_orientations(*old(self)),
                forall|p: int, q: int| Self::in_bounds(p, q) ==> #[trigger] self.pixel(p, q) == if x1 <= p
                    < x2 && p < x && y1 <= q < y2 {
                    transformed_all(old(self).pixel(p, q), t@)
                } else {
                    old(self).pixel(p, q)
                },
            decreases x2 - x,
        {
            let mut y: i32 = if y1 < 0 { 0 } else { y1 };
            while y < y2 && y < HEIGHT as i32
                invariant
                    0 <= x < x2,
                    x1 <= x,
                    (x as int) < 8 * N,
                    0 <= y,
                    y1 <= y,
                    self.same_orientations(*old(self)),
                    forall|p: int, q: int| Self::in_bounds(p, q) ==> #[trigger] self.pixel(p, q) == if x1
                        <= p < x2 && y1 <= q < y2 && (p < x || (p == x && q < y)) {
                        transformed_all(old(self).pixel(p, q), t@)
                    } else {
                        old(self).pixel(p, q)
                    },
                decreases y2 - y,
            {
                let c = self.get_pixel(x as usize, y as usize);
                let c2 = c.transform(t);
                self.put_pixel(x as usize, y as usize, c2);
                y = y + 1;
            }
            x = x + 1;
        }
    }

    /// Lights, in colour `rgb`, the pixels of `glyph` (rows least significant
    /// bit first) with its top-left corner at `at`; other pixels keep their
    /// colour and pixels off the surface are dropped.
    pub fn draw_font_glyph(&mut self, glyph: [u8; 8], rgb: Rgb, at: (i32, i32))
        ensures
            final(self).same_orientations(*old(self)),
            forall|p: int, q: int| Self::in_bounds(p, q) ==> #[trigger] final(self).pixel(p, q) == if glyph_lit(
                glyph@,
                p - at.0,
                q - at.1,
            ) {
                rgb
            } else {
                old(self).pixel(p, q)
            },
    {
        let (x1, y1) = at;
        let mut gy: u8 = 0;
        while gy < 8
            invariant
                gy <= 8,
                self.same_orientations(*old(self)),
                forall|p: int, q: int| Self::in_bounds(p, q) ==> #[trigger] self.pixel(p, q) == if glyph_lit(
                    glyph@,
                    p - x1,
                    q - y1,
                ) && q - y1 < gy {
                    rgb
                } else {
                    old(self).pixel(p, q)
                },
            decreases 8 - gy,
        {
            let row = glyph[gy as usize];
            let mut gx: u8 = 0;
            while gx < 8
                invariant
                    gy < 8,
                    gx <= 8,
                    row == glyph@[gy as int],
                    self.same_orientations(*old(self)),
                    forall|p: int, q: int| Self::in_bounds(p, q) ==> #[trigger] self.pixel(p, q) == if glyph_lit(
                        glyph@,
                        p - x1,
                        q - y1,
                    ) && (q - y1 < gy || (q - y1 == gy && p - x1 < gx)) {
                        rgb
                    } else {
                        old(self).pixel(p, q)
                    },
                decreases 8 - gx,
            {
                if bit_set(row, gx) {
                    let x: i64 = x1 as i64 + gx as i64;
                    let y: i64 = y1 as i64 + gy as i64;
                    if 0 <= y && y < HEIGHT as i64 && 0 <= x && (x as usize) / WIDTH < N {
                        self.put_pixel(x as usize, y as usize, rgb);
                    }
                }
                gx = gx + 1;
            }
            gy = gy + 1;
        }
    }

    /// Draws character `c` of the Basic Latin font with its top-left corner
    /// at `at`; a character the font lacks draws nothing.
    pub fn draw_char(&mut self, c: char, rgb: Rgb, at: (i32, i32))
        ensures
            final(self).same_orientations(*old(self)),
            forall|p: int, q: int| Self::in_bounds(p, q) ==> #[trigger] final(self).pixel(p, q) == if (c
                as u32) < 128 && glyph_lit(basic_glyph(c), p - at.0, q - at.1) {
                rgb
            } else {
                old(self).pixel(p, q)
            },
    {
        if let Some(glyph) = basic_font_glyph(c) {
            self.draw_font_glyph(glyph, rgb, at);
        }
    }

    /// Draws `s` left to right, one character every 8 columns, with the
    /// top-left corner of its first character at `at`.
    pub fn draw_str(&mut self, s: &str, rgb: Rgb, at: (i32, i32))
        requires
            N <= MAX_PANELS,
        ensures
            final(self).same_orientations(*old(self)),
            forall|p: int, q: int| Self::in_bounds(p, q) ==> #[trigger] final(self).pixel(p, q) == if text_lit(
                s@,
                p - at.0,
                q - at.1,
            ) {
                rgb
            } else {
                old(self).pixel(p, q)
            },
    {
        let (x1, y1) = at;
        let width: i64 = (N * WIDTH) as i64;
        let mut base: i64 = x1 as i64;
        for c in it: s.chars()
            invariant
                N <= MAX_PANELS,
                width == 8 * N,
                it.seq() == s@,
                base == x1 || base < width + 8,
                base == x1 + 8 * it.index() || (base >= width && x1 + 8 * it.index() >= width),
                self.same_orientations(*old(self)),
                forall|p: int, q: int| Self::in_bounds(p, q) ==> #[trigger] self.pixel(p, q) == if text_lit(
                    s@,
                    p - x1,
                    q - y1,
                ) && (p - x1) / 8 < it.index() {
                    rgb
                } else {
                    old(self).pixel(p, q)
                },
        {
            // Characters that start right of the surface cannot show.
            if base < width {
                self.draw_char(c, rgb, (base as i32, y1));
                base = base + CHAR_WIDTH as i64;
            }
        }
    }

    /// The left edges at which to draw a text of `len` characters to scroll
    /// it across the surface: from the last column until it has left on the
    /// left, one column per step.
    pub fn scroll_iter(&self, len: usize) -> (it: ScrollIter)
        requires
            8 * N <= 0x7fff_ffff,
            len <= MAX_SCROLL_CHARS,
        ensures
            it.remaining() == scroll_positions(N as int, len as int),
    {
        let width = (len * CHAR_WIDTH) as i32;
        let it = ScrollIter { low: -width, next_above: (N * WIDTH) as i32 };
        assert(it.remaining() =~= scroll_positions(N as int, len as int));
        it
    }

    /// The colours in the order they are sent, one per call of `next`.
    pub fn iter(&self) -> (it: Matrix1DIterator<'_, N>)
        ensures
            it.frame() == strip_raster(*self),
            it.position() == 0,
    {
        Matrix1DIterator { panels: &self.panels, index: 0 }
    }
}

impl<const N: usize> Default for Matrix1D<N> {
    fn default() -> (m: Self)
        ensures
            forall|i: int| 0 <= i < N ==> (#[trigger] m.panel(i)).facing() == Orientation::North
                && m.panel(i).is_dark(),
    {
        Self::new()
    }
}

/// Reads a strip out in raster order, panel after panel.
pub struct Matrix1DIterator<'a, const N: usize> {
    panels: &'a [Panel; N],
    index: usize,
}

impl<'a, const N: usize> Matrix1DIterator<'a, N> {
    /// Everything the iterator yields, from its start.
    pub closed spec fn frame(&self) -> Seq<Rgb> {
        Seq::new((64 * N) as nat, |k: int| panel_raster(self.panels@[k / 64])[k % 64])
    }

    /// How many colours have been yielded.
    pub closed spec fn position(&self) -> int {
        self.index as int
    }

    /// The next colour, or `None` once all 64 * N have been yielded.
    pub fn next(&mut self) -> (c: Option<Rgb>)
        requires
            N <= MAX_PANELS,
        ensures
            final(self).frame() == old(self).frame(),
            old(self).position() < 64 * N ==> c == Some(old(self).frame()[old(self).position()])
                && final(self).position() == old(self).position() + 1,
            old(self).position() >= 64 * N ==> c is None && final(self).position()
                == old(self).position(),
    {
        if self.index / PANEL_PIXELS < N {
            let out = self.panels[self.index / PANEL_PIXELS].raster_at(self.index % PANEL_PIXELS);
            self.index = self.index + 1;
            Some(out)
        } else {
            None
        }
    }
}

/// A scroll is finite: a text of `len` characters on a surface of `n` panels
/// is drawn at exactly 8 * n + 8 * len positions, one column apart, from the
/// last column (8 * n - 1) to where the text has just left (-8 * len). They
/// are exactly the columns from -8 * len up to 8 * n, each once.
pub proof fn lemma_scroll_sweep(n: int, len: int)
    requires
        n >= 0,
        len >= 0,
        n + len > 0,
    ensures
        scroll_positions(n, len).len() == 8 * n + 8 * len,
        scroll_positions(n, len)[0] == 8 * n - 1,
        scroll_positions(n, len).last() == -8 * len,
        forall|i: int|
            0 <= i < scroll_positions(n, len).len() - 1 ==> #[trigger] scroll_positions(n, len)[i + 1]
                == scroll_positions(n, len)[i] - 1,
        scroll_positions(n, len).no_duplicates(),
        forall|x: int| -8 * len <= x < 8 * n <==> #[trigger] scroll_positions(n, len).contains(x),
{
    let s = scroll_positions(n, len);
    assert forall|x: int| -8 * len <= x < 8 * n implies #[trigger] s.contains(x) by {
        assert(s[8 * n - 1 - x] == x);
    }
}

/// A scroll is restartable: every sweep made for the same text length on
/// the same surface yields the same positions.
pub proof fn lemma_scroll_restartable(a: ScrollIter, b: ScrollIter, n: int, len: int)
    requires
        a.remaining() == scroll_positions(n, len),
        b.remaining() == scroll_positions(n, len),
    ensures
        a.remaining() == b.remaining(),
{
}

} // verus!
