//! The WS2812 bit protocol: every colour is sent as 24 bits, most significant
//! first, each bit as a (high, low) pulse pair whose widths tell 0 from 1.
//! The pulses themselves are built by the hardware driver from its tick
//! frequency; this module decides which pair each bit takes.
use vstd::prelude::*;

use crate::rgb::{packed, Rgb, RgbLayout};

verus! {

/// High time of a 0 bit, in nanoseconds.
pub const T0H_NS: u64 = 350;

/// Low time of a 0 bit, in nanoseconds.
pub const T0L_NS: u64 = 800;

/// High time of a 1 bit, in nanoseconds.
pub const T1H_NS: u64 = 700;

/// Low time of a 1 bit, in nanoseconds.
pub const T1L_NS: u64 = 600;

/// Bits sent for one pixel.
pub const BITS_PER_PIXEL: usize = 24;

/// Whether bit `i` (0 is the least significant) of `w` is set.
pub open spec fn word_bit(w: u32, i: int) -> bool {
    (w >> (i as u32)) & 1u32 == 1u32
}

/// The pulse pairs of a frame: for each colour in turn, its packed word's
/// bits from bit 23 down to bit 0, a 1 as `one` and a 0 as `zero`.
pub open spec fn frame_pulses<P>(colors: Seq<Rgb>, layout: RgbLayout, zero: P, one: P) -> Seq<P> {
    Seq::new(
        (24 * colors.len()) as nat,
        |k: int|
            if word_bit(packed(colors[k / 24], layout), 23 - k % 24) {
                one
            } else {
                zero
            },
    )
}

/// The pulse pairs that send `colors`, in channel order `layout`, as one
/// contiguous frame.
pub fn pulse_train<P: Copy>(colors: &[Rgb], layout: RgbLayout, zero: P, one: P) -> (train: Vec<P>)
    ensures
        train@ == frame_pulses(colors@, layout, zero, one),
{
    let mut train: Vec<P> = Vec::new();
    let mut i: usize = 0;
    while i < colors.len()
        invariant
            i <= colors@.len(),
            train@ =~= frame_pulses(colors@.subrange(0, i as int), layout, zero, one),
        decreases colors@.len() - i,
    {
        let word = colors[i].to_u32(layout);
        let mut b: u32 = 0;
        while b < 24
            invariant
                i < colors@.len(),
                b <= 24,
                word == packed(colors@[i as int], layout),
                train@.len() == 24 * i + b,
                forall|k: int|
                    0 <= k < 24 * i ==> #[trigger] train@[k] == frame_pulses(
                        colors@.subrange(0, i as int),
                        layout,
                        zero,
                        one,
                    )[k],
                forall|k: int|
                    24 * i <= k < 24 * i + b ==> #[trigger] train@[k] == if word_bit(word, 23 - k % 24) {
                        one
                    } else {
                        zero
                    },
            decreases 24 - b,
        {
            if (word >> (23 - b)) & 1 == 1 {
                train.push(one);
            } else {
                train.push(zero);
            }
            b = b + 1;
        }
        let ghost next = frame_pulses(colors@.subrange(0, i + 1), layout, zero, one);
        assert forall|k: int| 0 <= k < 24 * (i + 1) implies #[trigger] train@[k] == next[k] by {
            if k >= 24 * i {
                assert(k / 24 == i);
            } else {
                assert(k / 24 < i);
            }
        }
        i = i + 1;
    }
    assert(colors@.subrange(0, i as int) =~= colors@);
    train
}

} // verus!
