//! The 8x8 Basic Latin font of the font8x8 crate.
use vstd::prelude::*;

verus! {

/// The eight rows of the Basic Latin glyph of `c`; in each row bit `x`
/// (least significant first) lights column `x`.
pub uninterp spec fn basic_glyph(c: char) -> Seq<u8>;

/// Relies on font8x8's `BASIC_FONTS.get`: a binary search over its table of
/// the 128 characters U+0000 to U+007F, which finds every one of them and
/// nothing else, and returns the glyph's rows.
#[verifier::external_body]
pub(crate) fn basic_font_glyph(c: char) -> (g: Option<[u8; 8]>)
    ensures
        g is Some <==> (c as u32) < 128,
        g is Some ==> g->0@ == basic_glyph(c),
{
    font8x8::UnicodeFonts::get(&font8x8::BASIC_FONTS, c)
}

/// Whether bit `i` of `row` is set.
pub open spec fn row_bit(row: u8, i: int) -> bool {
    0 <= i < 8 && (row >> (i as u8)) & 1u8 == 1u8
}

/// Whether pixel (x, y) of a glyph whose rows are least significant bit first is lit.
pub open spec fn glyph_lit(g: Seq<u8>, x: int, y: int) -> bool {
    0 <= y < 8 && y < g.len() && row_bit(g[y], x)
}

/// Whether bit `i` of `row` is set.
pub fn bit_set(row: u8, i: u8) -> (b: bool)
    requires
        i < 8,
    ensures
        b == row_bit(row, i as int),
{
    (row >> i) & 1 == 1
}

} // verus!
