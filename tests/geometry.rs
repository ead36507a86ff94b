use c3zero::matrix::{Matrix, Orientation};
use c3zero::matrix_1d::{Matrix1D, Panel};
use c3zero::rgb::{self, Rgb, RgbTransform};
use c3zero::ws2812_matrix::Ws2812Matrix;
use font8x8::UnicodeFonts;

const ALL: [Orientation; 4] = [
    Orientation::North,
    Orientation::East,
    Orientation::South,
    Orientation::West,
];

fn matrix_frame(m: &Matrix) -> Vec<Rgb> {
    let mut it = m.iter();
    let mut out = Vec::new();
    while let Some(c) = it.next() {
        out.push(c);
    }
    out
}

fn strip_frame<const N: usize>(m: &Matrix1D<N>) -> Vec<Rgb> {
    let mut it = m.iter();
    let mut out = Vec::new();
    while let Some(c) = it.next() {
        out.push(c);
    }
    out
}

fn lit_positions(frame: &[Rgb]) -> Vec<usize> {
    frame
        .iter()
        .enumerate()
        .filter(|(_, c)| **c != rgb::off())
        .map(|(i, _)| i)
        .collect()
}

#[test]
fn single_pixel_lands_per_orientation() {
    let expected = [0usize, 56, 63, 7];
    for (o, want) in ALL.iter().zip(expected) {
        let mut m = Matrix::new(*o);
        m.set((0, 0), rgb::red());
        let frame = matrix_frame(&m);
        assert_eq!(frame.len(), 64);
        assert_eq!(lit_positions(&frame), vec![want]);
    }
}

#[test]
fn orientation_table_for_every_pixel() {
    for o in ALL {
        for y in 0..8usize {
            for x in 0..8usize {
                let mut m = Matrix::new(o);
                m.set((x, y), rgb::blue());
                let shown = lit_positions(&matrix_frame(&m));
                // The stored pixel (x, y) is sent at raster (x1, y1) of the table.
                let (x1, y1) = match o {
                    Orientation::North => (x, y),
                    Orientation::East => (y, 7 - x),
                    Orientation::South => (7 - x, 7 - y),
                    Orientation::West => (7 - y, x),
                };
                assert_eq!(shown, vec![x1 + 8 * y1]);
            }
        }
    }
}

#[test]
fn west_strip_pixel_lands_per_table() {
    let mut m = Matrix1D::<1>::from_panels([Panel::new(Orientation::West)]);
    m.set((0, 0), Rgb::new(255, 0, 0));
    let frame = strip_frame(&m);
    assert_eq!(frame.len(), 64);
    assert_eq!(lit_positions(&frame), vec![7]);
}

#[test]
fn matrix_set_off_matrix_is_dropped() {
    let mut m = Ws2812Matrix::new(Orientation::North);
    m.set((9, 0), rgb::red());
    m.set((0, 8), rgb::red());
    for j in 0..64usize {
        assert_eq!(m.get((j % 8, j / 8)), rgb::off());
    }
    let mut m = Matrix::new(Orientation::North);
    m.set((8, 1), rgb::red());
    assert!(lit_positions(&matrix_frame(&m)).is_empty());
}

#[test]
fn four_quarter_turns_return_to_start() {
    let mut m = Matrix::new(Orientation::North);
    m.set((2, 1), rgb::green());
    m.set((5, 6), rgb::red());
    let north = matrix_frame(&m);
    // East twice equals South, East three times equals West.
    // Under East raster (x, y) shows the stored pixel (7 - y, x).
    let east = |f: &Vec<Rgb>| -> Vec<Rgb> {
        (0..64).map(|i| f[(7 - i / 8) + (i % 8) * 8]).collect()
    };
    m.set_orientation(Orientation::East);
    assert_eq!(matrix_frame(&m), east(&north));
    m.set_orientation(Orientation::South);
    assert_eq!(matrix_frame(&m), east(&east(&north)));
    m.set_orientation(Orientation::West);
    assert_eq!(matrix_frame(&m), east(&east(&east(&north))));
    assert_eq!(east(&east(&east(&east(&north)))), north);
    m.set_orientation(Orientation::North);
    assert_eq!(matrix_frame(&m), north);
}

#[test]
fn matrix_set_get_fill() {
    let mut m = Matrix::new(Orientation::North);
    assert_eq!(m.get((7, 7)), rgb::off());
    m.set((3, 4), Rgb::new(1, 2, 3));
    assert_eq!(m.get((3, 4)), Rgb::new(1, 2, 3));
    m.fill(rgb::white());
    assert_eq!(m.get((3, 4)), rgb::white());
    assert_eq!(m.get((0, 0)), rgb::white());
}

#[test]
fn glyph_is_msb_first_and_clipped() {
    let glyph = [0b1000_0001u8, 0, 0, 0, 0, 0, 0, 0b0100_0000];
    let mut m = Matrix::new(Orientation::North);
    m.draw_glyph(glyph, rgb::blue(), 0);
    assert_eq!(lit_positions(&matrix_frame(&m)), vec![0, 7, 57]);
    m.fill(rgb::off());
    m.draw_glyph(glyph, rgb::blue(), 2);
    assert_eq!(lit_positions(&matrix_frame(&m)), vec![2, 59]);
    m.fill(rgb::off());
    m.draw_glyph(glyph, rgb::blue(), -7);
    assert_eq!(lit_positions(&matrix_frame(&m)), vec![0]);
    m.fill(rgb::off());
    m.draw_glyph(glyph, rgb::blue(), 8);
    assert!(lit_positions(&matrix_frame(&m)).is_empty());
    m.draw_glyph(glyph, rgb::blue(), -128);
    assert!(lit_positions(&matrix_frame(&m)).is_empty());
}

#[test]
fn draw_char_matches_font() {
    let glyph = font8x8::BASIC_FONTS.get('A').unwrap();
    let mut m = Ws2812Matrix::new(Orientation::North);
    m.draw_char('A', rgb::red(), 0);
    let mut lit = 0;
    for y in 0..8usize {
        for x in 0..8usize {
            let on = glyph[y] & (1 << x) != 0;
            assert_eq!(m.get((x, y)) == rgb::red(), on);
            lit += on as usize;
        }
    }
    assert!(lit > 0);
    let mut m2 = Matrix::new(Orientation::North);
    m2.draw_char('A', rgb::red(), 1);
    for y in 0..8usize {
        for x in 1..8usize {
            assert_eq!(m2.get((x, y)) == rgb::red(), glyph[y] & (1 << (x - 1)) != 0);
        }
        assert_eq!(m2.get((0, y)), rgb::off());
    }
}

#[test]
fn char_outside_font_draws_nothing() {
    let mut m = Ws2812Matrix::new(Orientation::North);
    m.draw_char('é', rgb::red(), 0);
    for j in 0..64usize {
        assert_eq!(m.get((j % 8, j / 8)), rgb::off());
    }
}

#[test]
fn bitmap_with_colourmap() {
    let bitmap = [
        ".ABCD...", "....A...", "....B...", "....C...", "....DCBA", "........", "AB......",
        "CDX",
    ];
    let colourmap = [
        ('A', rgb::red()),
        ('B', rgb::green()),
        ('C', rgb::blue()),
        ('D', Rgb::new(0, 64, 64)),
        ('A', rgb::white()),
    ];
    let mut m = Matrix::new(Orientation::North);
    m.fill(rgb::white());
    m.draw_bitmap(&bitmap, &colourmap, 0);
    assert_eq!(m.get((0, 0)), rgb::off());
    assert_eq!(m.get((1, 0)), rgb::red());
    assert_eq!(m.get((4, 0)), Rgb::new(0, 64, 64));
    assert_eq!(m.get((7, 4)), rgb::red());
    assert_eq!(m.get((1, 6)), rgb::green());
    assert_eq!(m.get((2, 7)), rgb::off());
    // The last row is shorter: its other pixels keep their colour.
    assert_eq!(m.get((3, 7)), rgb::white());
}

#[test]
fn strip_set_drops_off_surface_writes() {
    let mut m = Matrix1D::<2>::new();
    m.set((-1, 0), rgb::red());
    m.set((16, 0), rgb::red());
    m.set((0, 8), rgb::red());
    m.set((3, -1), rgb::red());
    assert!(lit_positions(&strip_frame(&m)).is_empty());
    m.set((9, 2), rgb::red());
    assert_eq!(lit_positions(&strip_frame(&m)), vec![64 + 1 + 16]);
    m.clear();
    assert!(lit_positions(&strip_frame(&m)).is_empty());
}

#[test]
fn strip_panels_keep_their_orientation() {
    let m0 = Matrix1D::<2>::from_panels([Panel::new(Orientation::North), Panel::new(Orientation::South)]);
    let mut m = m0;
    m.set((8, 0), rgb::green());
    m.set((0, 0), rgb::green());
    assert_eq!(lit_positions(&strip_frame(&m)), vec![0, 64 + 63]);
    let mut p = Panel::new(Orientation::East);
    p.set_orientation(Orientation::North);
    let mut it = p.iter();
    let mut n = 0;
    while it.next().is_some() {
        n += 1;
    }
    assert_eq!(n, 64);
}

#[test]
fn strip_transform_rectangle() {
    let mut m = Matrix1D::<2>::new();
    for x in 0..16 {
        for y in 0..8 {
            m.set((x, y), Rgb::new(100, 0, 0));
        }
    }
    m.transform((6, 2), (10, 3), &[RgbTransform::Intensity(51), RgbTransform::Rotate]);
    let frame = strip_frame(&m);
    for k in 0..128usize {
        let (x, y) = ((k / 64) * 8 + k % 8, (k % 64) / 8);
        let want = if (6..10).contains(&x) && y == 2 { Rgb::new(0, 20, 0) } else { Rgb::new(100, 0, 0) };
        assert_eq!(frame[k], want);
    }
    // A rectangle reaching off the surface only touches what is on it.
    m.transform((-100, -100), (100, 100), &[RgbTransform::Intensity(0)]);
    assert!(lit_positions(&strip_frame(&m)).is_empty());
}

#[test]
fn strip_draw_str_spans_panels() {
    let a = font8x8::BASIC_FONTS.get('A').unwrap();
    let b = font8x8::BASIC_FONTS.get('B').unwrap();
    let mut m = Matrix1D::<2>::new();
    m.draw_str("AB", rgb::red(), (4, 0));
    let frame = strip_frame(&m);
    for k in 0..128usize {
        let (x, y) = ((k / 64) * 8 + k % 8, (k % 64) / 8);
        let want = if (4..12).contains(&x) {
            a[y] & (1 << (x - 4)) != 0
        } else if x >= 12 {
            b[y] & (1 << (x - 12)) != 0
        } else {
            false
        };
        assert_eq!(frame[k] == rgb::red(), want, "pixel {} {}", x, y);
    }
}

#[test]
fn strip_draw_char_off_surface() {
    let mut m = Matrix1D::<1>::new();
    m.draw_char('A', rgb::red(), (i32::MAX, 0));
    m.draw_char('A', rgb::red(), (i32::MIN, i32::MIN));
    m.draw_str("AAAA", rgb::red(), (-32, 0));
    assert!(lit_positions(&strip_frame(&m)).is_empty());
}

#[test]
fn scroll_sweep_is_finite_and_restartable() {
    let m = Matrix1D::<2>::new();
    let collect = |len: usize| {
        let mut it = m.scroll_iter(len);
        let mut v = Vec::new();
        while let Some(x) = it.next() {
            v.push(x);
        }
        v
    };
    let first = collect(3);
    assert_eq!(first.len(), 8 * 2 + 3 * 8);
    assert_eq!(first[0], 15);
    assert_eq!(*first.last().unwrap(), -24);
    assert!(first.windows(2).all(|w| w[1] == w[0] - 1));
    assert_eq!(collect(3), first);
    assert_eq!(collect(0).len(), 16);
}
