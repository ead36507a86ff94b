//! Panel geometry shared by every matrix type: the 8x8 raster and the
//! read-time orientation remapping.
use vstd::prelude::*;

verus! {

pub const WIDTH: usize = 8;

pub const HEIGHT: usize = 8;

pub const PANEL_PIXELS: usize = WIDTH * HEIGHT;

/// Rotation applied when a panel is read out; the stored pixels never move.
#[derive(Clone, Copy, Debug, PartialEq, Eq, Structural, Default)]
pub enum Orientation {
    #[default]
    North,
    East,
    South,
    West,
}

/// The raster position (x1, y1) at which the stored pixel (x, y) of an 8x8
/// panel is shown.
pub open spec fn shown_xy(o: Orientation, x: int, y: int) -> (int, int) {
    match o {
        Orientation::North => (x, y),
        Orientation::East => (y, 7 - x),
        Orientation::South => (7 - x, 7 - y),
        Orientation::West => (7 - y, x),
    }
}

/// The stored coordinate shown at raster position (x, y): the inverse of
/// `shown_xy`.
pub open spec fn source_xy(o: Orientation, x: int, y: int) -> (int, int) {
    match o {
        Orientation::North => (x, y),
        Orientation::East => (7 - y, x),
        Orientation::South => (7 - x, 7 - y),
        Orientation::West => (y, 7 - x),
    }
}
/// The stored index read at raster index `i` (row-major, 8 per row).
pub open spec fn source_index(o: Orientation, i: int) -> int {
    let (x1, y1) = source_xy(o, i % 8, i / 8);
    x1 + 8 * y1
}

/// The colours of an 8x8 panel in the order they are sent: raster index `i`
/// shows the stored pixel that orientation `o` maps it to.
pub open spec fn raster<T>(pixels: Seq<T>, o: Orientation) -> Seq<T> {
    Seq::new(64, |i: int| pixels[source_index(o, i)])
}

/// A quarter turn of the panel's coordinates.
pub open spec fn quarter_turn(xy: (int, int)) -> (int, int) {
    (xy.1, 7 - xy.0)
}

/// The raster index at which the stored pixel (0, 0) is shown.
pub open spec fn origin_position(o: Orientation) -> int {
    match o {
        Orientation::North => 0,
        Orientation::East => 56,
        Orientation::South => 63,
        Orientation::West => 7,
    }
}

/// Computes `source_index(o, i)`.
pub fn source_index_of(o: Orientation, i: usize) -> (j: usize)
    requires
        i < PANEL_PIXELS,
    ensures
        j == source_index(o, i as int),
        j < PANEL_PIXELS,
{
    let (x, y) = (i % WIDTH, i / WIDTH);
    match o {
        Orientation::North => x + y * WIDTH,
        Orientation::East => (WIDTH - y - 1) + x * WIDTH,
        Orientation::South => (WIDTH - x - 1) + (WIDTH - y - 1) * WIDTH,
        Orientation::West => y + (WIDTH - x - 1) * WIDTH,
    }
}

/// The four orientations form the rotation group of the panel: East is a
/// quarter turn, South two, West three, North none, and four quarter turns
/// give back the starting mapping. Each raster position shows the stored
/// pixel that the orientation moves there.
pub proof fn lemma_rotation_group(x: int, y: int)
    ensures
        shown_xy(Orientation::North, x, y) == (x, y),
        shown_xy(Orientation::East, x, y) == quarter_turn((x, y)),
        shown_xy(Orientation::South, x, y) == quarter_turn(quarter_turn((x, y))),
        shown_xy(Orientation::West, x, y) == quarter_turn(quarter_turn(quarter_turn((x, y)))),
        quarter_turn(quarter_turn(quarter_turn(quarter_turn((x, y))))) == (x, y),
        forall|o: Orientation|
            #![trigger shown_xy(o, x, y)]
            source_xy(o, shown_xy(o, x, y).0, shown_xy(o, x, y).1) == (x, y),
{
}

/// The stored pixel (x, y) is sent at raster index x1 + 8 * y1, where
/// (x1, y1) is `shown_xy(o, x, y)`.
pub proof fn lemma_raster_shows_pixel<T>(pixels: Seq<T>, o: Orientation, x: int, y: int)
    requires
        pixels.len() == 64,
        0 <= x < 8,
        0 <= y < 8,
    ensures
        ({
            let (x1, y1) = shown_xy(o, x, y);
            &&& 0 <= x1 < 8
            &&& 0 <= y1 < 8
            &&& raster(pixels, o)[x1 + 8 * y1] == pixels[x + 8 * y]
        }),
{
    let (x1, y1) = shown_xy(o, x, y);
    assert((x1 + 8 * y1) % 8 == x1 && (x1 + 8 * y1) / 8 == y1);
}

/// Every orientation reads each stored pixel at exactly one raster index;
/// the stored pixel (0, 0) is shown at `origin_position(o)`.
pub proof fn lemma_orientation_permutes(o: Orientation)
    ensures
        forall|i: int| 0 <= i < 64 ==> 0 <= #[trigger] source_index(o, i) < 64,
        forall|i: int, k: int|
            0 <= i < 64 && 0 <= k < 64 && #[trigger] source_index(o, i) == #[trigger] source_index(o, k)
                ==> i == k,
        source_index(o, origin_position(o)) == 0,
        forall|i: int| 0 <= i < 64 && #[trigger] source_index(o, i) == 0 ==> i == origin_position(o),
{
}

} // verus!
