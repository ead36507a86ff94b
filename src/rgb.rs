//! RGB colour model: construction, HSV conversion, channel packing and
//! per-pixel transforms.
use vstd::prelude::*;

verus! {

/// Order in which the channels of a colour are sent to the LED driver.
#[derive(Clone, Copy, Debug, PartialEq, Eq, Structural)]
pub enum RgbLayout {
    Rgb,
    Grb,
}

/// A colour as three 8-bit channels.
#[derive(Clone, Copy, Debug, PartialEq, Eq, Structural)]
pub struct Rgb {
    pub r: u8,
    pub g: u8,
    pub b: u8,
}

/// All channels dark: the LED is off.
pub open spec fn black() -> Rgb {
    Rgb { r: 0, g: 0, b: 0 }
}

/// All channels dark.
pub fn off() -> (c: Rgb)
    ensures
        c == black(),
{
    Rgb { r: 0, g: 0, b: 0 }
}

pub fn red() -> (c: Rgb)
    ensures
        c == (Rgb { r: 255, g: 0, b: 0 }),
{
    Rgb { r: 255, g: 0, b: 0 }
}

pub fn green() -> (c: Rgb)
    ensures
        c == (Rgb { r: 0, g: 255, b: 0 }),
{
    Rgb { r: 0, g: 255, b: 0 }
}

pub fn blue() -> (c: Rgb)
    ensures
        c == (Rgb { r: 0, g: 0, b: 255 }),
{
    Rgb { r: 0, g: 0, b: 255 }
}

pub fn white() -> (c: Rgb)
    ensures
        c == (Rgb { r: 255, g: 255, b: 255 }),
{
    Rgb { r: 255, g: 255, b: 255 }
}

/// The HSV inputs were outside h <= 360, s <= 100, v <= 100.
#[derive(Clone, Copy, Debug, PartialEq, Eq, Structural)]
pub enum HsvRangeError {
    OutOfRange,
}

pub open spec fn hsv_in_range(h: u32, s: u32, v: u32) -> bool {
    h <= 360 && s <= 100 && v <= 100
}

/// All channel arithmetic of the HSV conversion is exact, in units of
/// 1/600000: s/100 * v/100 has denominator 10^4, and the hue fraction adds 60.
pub open spec fn hsv_unit() -> int {
    600000
}

/// Chroma c = s * v, in units of 1/600000.
pub open spec fn hsv_chroma(s: int, v: int) -> int {
    s * v * 60
}

/// Second-largest component x = c * (1 - |(h / 60) mod 2 - 1|), in units of 1/600000.
pub open spec fn hsv_second(h: int, s: int, v: int) -> int {
    let k = h % 120;
    let dist = if k >= 60 { k - 60 } else { 60 - k };
    s * v * (60 - dist)
}

/// The amount m = v - c added to every channel, in units of 1/600000.
pub open spec fn hsv_floor(s: int, v: int) -> int {
    v * (100 - s) * 60
}

/// One output channel: (component + m) * 255, truncated.
pub open spec fn hsv_channel(component: int, m: int) -> u8 {
    ((component + m) * 255 / hsv_unit()) as u8
}

/// The colour that hue `h` (degrees), saturation `s` and value `v` (percent)
/// stand for, with every channel truncated toward zero.
pub open spec fn hsv_to_rgb(h: int, s: int, v: int) -> Rgb {
    let c = hsv_chroma(s, v);
    let x = hsv_second(h, s, v);
    let m = hsv_floor(s, v);
    let (r, g, b) = if h < 60 {
        (c, x, 0)
    } else if h < 120 {
        (x, c, 0)
    } else if h < 180 {
        (0, c, x)
    } else if h < 240 {
        (0, x, c)
    } else if h < 300 {
        (x, 0, c)
    } else {
        (c, 0, x)
    };
    Rgb { r: hsv_channel(r, m), g: hsv_channel(g, m), b: hsv_channel(b, m) }
}

/// The 24-bit word that carries `c` in channel order `layout`.
pub open spec fn packed(c: Rgb, layout: RgbLayout) -> u32 {
    match layout {
        RgbLayout::Rgb => (c.r as int * 65536 + c.g as int * 256 + c.b as int) as u32,
        RgbLayout::Grb => (c.g as int * 65536 + c.r as int * 256 + c.b as int) as u32,
    }
}

/// The colour read back from a 24-bit word in channel order `layout`.
pub open spec fn unpacked(w: u32, layout: RgbLayout) -> Rgb {
    let hi = ((w as int / 65536) % 256) as u8;
    let mid = ((w as int / 256) % 256) as u8;
    let lo = (w as int % 256) as u8;
    match layout {
        RgbLayout::Rgb => Rgb { r: hi, g: mid, b: lo },
        RgbLayout::Grb => Rgb { r: mid, g: hi, b: lo },
    }
}

/// A per-pixel colour operation, used for fades and colour cycling.
#[derive(Clone, Copy, Debug, PartialEq, Eq, Structural)]
pub enum RgbTransform {
    /// Scales every channel by `level / 255` (a factor in [0, 1]), truncating.
    Intensity(u8),
    /// Moves each channel to the next one: red to green, green to blue, blue to red.
    Rotate,
    /// Replaces a near-black colour, one whose every channel is below the
    /// threshold, by the given colour.
    FillThreshold(Rgb, u8),
}

pub open spec fn scale_channel(ch: u8, level: u8) -> u8 {
    (ch as int * level as int / 255) as u8
}

/// The result of one transform on one colour.
pub open spec fn transformed(c: Rgb, t: RgbTransform) -> Rgb {
    match t {
        RgbTransform::Intensity(level) => Rgb {
            r: scale_channel(c.r, level),
            g: scale_channel(c.g, level),
            b: scale_channel(c.b, level),
        },
        RgbTransform::Rotate => Rgb { r: c.b, g: c.r, b: c.g },
        RgbTransform::FillThreshold(fill, threshold) => {
            if c.r < threshold && c.g < threshold && c.b < threshold {
                fill
            } else {
                c
            }
        },
    }
}

/// The result of applying the transforms of `ts` in order, first to last.
pub open spec fn transformed_all(c: Rgb, ts: Seq<RgbTransform>) -> Rgb
    decreases ts.len(),
{
    if ts.len() == 0 {
        c
    } else {
        transformed(transformed_all(c, ts.drop_last()), ts.last())
    }
}

impl Rgb {
    pub fn new(r: u8, g: u8, b: u8) -> (c: Self)
        ensures
            c == (Rgb { r, g, b }),
    {
        Self { r, g, b }
    }

    /// Converts hue (0..=360 degrees), saturation and value (0..=100 percent)
    /// to RGB; out-of-range inputs are rejected.
    pub fn from_hsv(h: u32, s: u32, v: u32) -> (res: Result<Self, HsvRangeError>)
        ensures
            hsv_in_range(h, s, v) <==> res is Ok,
            hsv_in_range(h, s, v) ==> res == Ok::<Rgb, HsvRangeError>(
                hsv_to_rgb(h as int, s as int, v as int),
            ),
            !hsv_in_range(h, s, v) ==> res == Err::<Rgb, HsvRangeError>(HsvRangeError::OutOfRange),
    {
        if h > 360 || s > 100 || v > 100 {
            return Err(HsvRangeError::OutOfRange);
        }
        assert(s * v <= 10000) by (nonlinear_arith)
            requires s <= 100, v <= 100;
        assert(v * (100 - s) <= 10000) by (nonlinear_arith)
            requires s <= 100, v <= 100;
        let c: u32 = s * v * 60;
        let k: u32 = h % 120;
        let dist: u32 = if k >= 60 { k - 60 } else { 60 - k };
        assert(s * v * (60 - dist) <= s * v * 60) by (nonlinear_arith)
            requires dist <= 60;
        let x: u32 = s * v * (60 - dist);
        let m: u32 = v * (100 - s) * 60;
        assert(c + m <= 600000) by (nonlinear_arith)
            requires c == s * v * 60, m == v * (100 - s) * 60, s <= 100, v <= 100;
        assert(x <= c) by (nonlinear_arith)
            requires x == s * v * (60 - dist), c == s * v * 60, dist <= 60;
        let (r, g, b) = if h < 60 {
            (c, x, 0)
        } else if h < 120 {
            (x, c, 0)
        } else if h < 180 {
            (0, c, x)
        } else if h < 240 {
            (0, x, c)
        } else if h < 300 {
            (x, 0, c)
        } else {
            (c, 0, x)
        };
        let res = Rgb {
            r: ((r + m) * 255 / 600000) as u8,
            g: ((g + m) * 255 / 600000) as u8,
            b: ((b + m) * 255 / 600000) as u8,
        };
        Ok(res)
    }

    /// Packs the colour into a 24-bit word, most significant channel first in
    /// the order `format` gives.
    pub fn to_u32(&self, format: RgbLayout) -> (w: u32)
        ensures
            w == packed(*self, format),
            w < 0x100_0000,
    {
        match format {
            RgbLayout::Rgb => (self.r as u32) * 65536 + (self.g as u32) * 256 + self.b as u32,
            RgbLayout::Grb => (self.g as u32) * 65536 + (self.r as u32) * 256 + self.b as u32,
        }
    }

    fn scaled(ch: u8, level: u8) -> (r: u8)
        ensures
            r == scale_channel(ch, level),
    {
        assert((ch as int) * (level as int) <= 255 * 255) by (nonlinear_arith)
            requires ch <= 255, level <= 255;
        assert((ch as int) * (level as int) / 255 <= 255) by (nonlinear_arith)
            requires (ch as int) * (level as int) <= 255 * 255;
        ((ch as u32) * (level as u32) / 255) as u8
    }

    /// Applies one transform.
    pub fn apply(&self, t: RgbTransform) -> (c: Rgb)
        ensures
            c == transformed(*self, t),
    {
        match t {
            RgbTransform::Intensity(level) => Rgb {
                r: Self::scaled(self.r, level),
                g: Self::scaled(self.g, level),
                b: Self::scaled(self.b, level),
            },
            RgbTransform::Rotate => Rgb { r: self.b, g: self.r, b: self.g },
            RgbTransform::FillThreshold(fill, threshold) => {
                if self.r < threshold && self.g < threshold && self.b < threshold {
                    fill
                } else {
                    *self
                }
            },
        }
    }

    /// Applies the transforms of `t` in order, first to last.
    pub fn transform(&self, t: &[RgbTransform]) -> (c: Rgb)
        ensures
            c == transformed_all(*self, t@),
    {
        let mut c = *self;
        let mut i: usize = 0;
        while i < t.len()
            invariant
                i <= t@.len(),
                c == transformed_all(*self, t@.subrange(0, i as int)),
            decreases t@.len() - i,
        {
            assert(t@.subrange(0, i as int + 1).drop_last() =~= t@.subrange(0, i as int));
            c = c.apply(t[i]);
            i = i + 1;
        }
        assert(t@.subrange(0, i as int) =~= t@);
        c
    }
}

/// Packing only places the channels: the word read back in the same layout
/// is the same colour, and a GRB word is the RGB word of the colour with red
/// and green swapped.
pub proof fn lemma_packing_round_trip(c: Rgb, layout: RgbLayout)
    ensures
        packed(c, layout) < 0x100_0000,
        unpacked(packed(c, layout), layout) == c,
        packed(c, RgbLayout::Grb) == packed(Rgb { r: c.g, g: c.r, b: c.b }, RgbLayout::Rgb),
{
    let (hi, mid, lo) = match layout {
        RgbLayout::Rgb => (c.r as int, c.g as int, c.b as int),
        RgbLayout::Grb => (c.g as int, c.r as int, c.b as int),
    };
    let w = hi * 65536 + mid * 256 + lo;
    assert(w == packed(c, layout) as int);
    assert(w == (hi * 256 + mid) * 256 + lo) by (nonlinear_arith)
        requires w == hi * 65536 + mid * 256 + lo;
    vstd::arithmetic::div_mod::lemma_fundamental_div_mod_converse(w, 65536, hi, mid * 256 + lo);
    vstd::arithmetic::div_mod::lemma_fundamental_div_mod_converse(w, 256, hi * 256 + mid, lo);
    vstd::arithmetic::div_mod::lemma_fundamental_div_mod_converse(hi * 256 + mid, 256, hi, mid);
    vstd::arithmetic::div_mod::lemma_fundamental_div_mod_converse(hi, 256, 0, hi);
}

/// Two colours with the same word in one layout are the same colour.
pub proof fn lemma_packing_injective(c1: Rgb, c2: Rgb, layout: RgbLayout)
    requires
        packed(c1, layout) == packed(c2, layout),
    ensures
        c1 == c2,
{
    lemma_packing_round_trip(c1, layout);
    lemma_packing_round_trip(c2, layout);
}

/// At full saturation and value the hues 0, 60, 120, 180, 240 and 300 give
/// exactly red, yellow, green, cyan, blue and magenta.
pub proof fn lemma_primary_hues()
    ensures
        hsv_to_rgb(0, 100, 100) == (Rgb { r: 255, g: 0, b: 0 }),
        hsv_to_rgb(60, 100, 100) == (Rgb { r: 255, g: 255, b: 0 }),
        hsv_to_rgb(120, 100, 100) == (Rgb { r: 0, g: 255, b: 0 }),
        hsv_to_rgb(180, 100, 100) == (Rgb { r: 0, g: 255, b: 255 }),
        hsv_to_rgb(240, 100, 100) == (Rgb { r: 0, g: 0, b: 255 }),
        hsv_to_rgb(300, 100, 100) == (Rgb { r: 255, g: 0, b: 255 }),
{
    assert(hsv_chroma(100, 100) == 600000);
    assert(hsv_floor(100, 100) == 0);
    assert(hsv_channel(600000, 0) == 255);
    assert(hsv_channel(0, 0) == 0);
    assert(hsv_second(0, 100, 100) == 0);
    assert(hsv_second(60, 100, 100) == 600000);
    assert(hsv_second(120, 100, 100) == 0);
    assert(hsv_second(180, 100, 100) == 600000);
    assert(hsv_second(240, 100, 100) == 0);
    assert(hsv_second(300, 100, 100) == 600000);
}

} // verus!
