//! The status indicator's animation engine. Each tick takes the intent that
//! was set since the last tick, if any, and the monotonic time in
//! milliseconds, and returns the colour to show. Flash and sequence phases
//! are functions of the time elapsed since the intent was set, so late or
//! extra wake-ups never shift them.
use vstd::prelude::*;

use crate::rgb::{black, hsv_to_rgb, off, Rgb};

verus! {

/// How long the engine waits for a new intent before ticking anyway.
pub const STATUS_POLL_MS: u64 = 50;

/// Saturation of the colour wheel, in percent.
pub const WHEEL_SATURATION: u32 = 100;

/// Value (brightness) of the colour wheel, in percent.
pub const WHEEL_VALUE: u32 = 20;

/// What the status LED should show.
#[derive(Clone, Debug, PartialEq, Eq)]
pub enum LedState {
    Off,
    On(Rgb),
    /// The colour and the full on-off period in milliseconds.
    Flash(Rgb, u32),
    /// Degrees the hue advances on every tick.
    Wheel(u32),
    /// Colours and how many milliseconds each is shown, repeated forever.
    Sequence(Vec<(Rgb, u32)>),
}

/// Milliseconds a flash stays on, and then off: half the period, and at
/// least the 1 ms resolution of the clock.
pub open spec fn flash_half(period: u32) -> int {
    if period / 2 == 0 {
        1
    } else {
        (period / 2) as int
    }
}

/// A flash shows its colour during the even half periods since it started.
pub open spec fn flash_colour(c: Rgb, period: u32, elapsed: int) -> Rgb {
    if (elapsed / flash_half(period)) % 2 == 0 {
        c
    } else {
        black()
    }
}

/// The summed durations of the first `i` steps.
pub open spec fn steps_total(s: Seq<(Rgb, u32)>, i: int) -> int
    decreases i,
{
    if i <= 0 || i > s.len() {
        0
    } else {
        steps_total(s, i - 1) + s[i - 1].1
    }
}

/// The first step, from `i` on, that is still running `p` milliseconds into
/// the cycle; `s.len()` if there is none.
pub open spec fn step_at(s: Seq<(Rgb, u32)>, p: int, i: int) -> int
    decreases s.len() - i,
{
    if i < 0 || i >= s.len() {
        s.len() as int
    } else if p < steps_total(s, i + 1) {
        i
    } else {
        step_at(s, p, i + 1)
    }
}

/// The colour a sequence shows `elapsed` ms after it started: the cycle
/// repeats every total duration. An empty sequence stays dark; one whose
/// steps all last 0 ms shows its first colour.
pub open spec fn sequence_colour(s: Seq<(Rgb, u32)>, elapsed: int) -> Rgb {
    let total = steps_total(s, s.len() as int);
    if s.len() == 0 {
        black()
    } else if total == 0 {
        s[0].0
    } else {
        let k = step_at(s, elapsed % total, 0);
        if k < s.len() {
            s[k].0
        } else {
            black()
        }
    }
}

/// The hue after one tick in `state`.
pub open spec fn next_hue(hue: u32, state: LedState) -> u32 {
    match state {
        LedState::Wheel(step) => ((hue + step) % 360) as u32,
        _ => hue,
    }
}

/// The colour shown in `state`, `elapsed` ms after it was set, with wheel hue `hue`.
pub open spec fn shown(state: LedState, elapsed: int, hue: u32) -> Rgb {
    match state {
        LedState::Off => black(),
        LedState::On(c) => c,
        LedState::Flash(c, period) => flash_colour(c, period, elapsed),
        LedState::Wheel(_) => hsv_to_rgb(hue as int, WHEEL_SATURATION as int, WHEEL_VALUE as int),
        LedState::Sequence(s) => sequence_colour(s@, elapsed),
    }
}

/// The colour of a running sequence.
fn sequence_colour_at(steps: &Vec<(Rgb, u32)>, elapsed: u64) -> (c: Rgb)
    ensures
        c == sequence_colour(steps@, elapsed as int),
{
    let n = steps.len();
    if n == 0 {
        return off();
    }
    let mut total: u128 = 0;
    let mut i: usize = 0;
    while i < n
        invariant
            n == steps@.len(),
            i <= n,
            total == steps_total(steps@, i as int),
            total <= (i as int) * 0xffff_ffff,
        decreases n - i,
    {
        total = total + steps[i].1 as u128;
        i = i + 1;
    }
    if total == 0 {
        return steps[0].0;
    }
    let p: u128 = (elapsed as u128) % total;
    let mut acc: u128 = 0;
    let mut k: usize = 0;
    while k < n
        invariant
            n == steps@.len(),
            k <= n,
            acc == steps_total(steps@, k as int),
            acc <= (k as int) * 0xffff_ffff,
            steps_total(steps@, n as int) > 0,
            p == elapsed as int % steps_total(steps@, n as int),
            step_at(steps@, p as int, 0) == step_at(steps@, p as int, k as int),
        decreases n - k,
    {
        acc = acc + steps[k].1 as u128;
        if p < acc {
            assert(step_at(steps@, p as int, k as int) == k);
            return steps[k].0;
        }
        k = k + 1;
    }
    off()
}

/// The status LED's engine: the intent in force, when it was set, the wheel
/// hue, and the time of the last tick.
pub struct StatusEngine {
    state: LedState,
    entered_ms: u64,
    hue: u32,
    last_ms: u64,
}

impl StatusEngine {
    pub closed spec fn state(&self) -> LedState {
        self.state
    }

    /// When the intent in force was set.
    pub closed spec fn entered_ms(&self) -> u64 {
        self.entered_ms
    }

    /// The colour wheel's hue, in degrees.
    pub closed spec fn hue(&self) -> u32 {
        self.hue
    }

    /// The time of the last tick; the clock never goes back.
    pub closed spec fn last_ms(&self) -> u64 {
        self.last_ms
    }

    pub closed spec fn well_formed(&self) -> bool {
        self.entered_ms <= self.last_ms && self.hue < 360
    }

    /// An engine that shows nothing, started at time `now_ms`.
    pub fn new(now_ms: u64) -> (e: Self)
        ensures
            e.well_formed(),
            e.state() == LedState::Off,
            e.entered_ms() == now_ms,
            e.hue() == 0,
            e.last_ms() == now_ms,
    {
        StatusEngine { state: LedState::Off, entered_ms: now_ms, hue: 0, last_ms: now_ms }
    }

    /// One wake-up at time `now_ms`, with the intent set since the last one,
    /// if any: a new intent restarts every phase (the flash starts on, the
    /// sequence at its first step, the wheel at hue 0). Returns the colour to
    /// send.
    pub fn tick(&mut self, update: Option<LedState>, now_ms: u64) -> (c: Rgb)
        requires
            old(self).well_formed(),
            old(self).last_ms() <= now_ms,
        ensures
            final(self).well_formed(),
            final(self).last_ms() == now_ms,
            final(self).state() == match update {
                Some(s) => s,
                None => old(self).state(),
            },
            final(self).entered_ms() == if update is Some {
                now_ms
            } else {
                old(self).entered_ms()
            },
            final(self).hue() == next_hue(
                if update is Some {
                    0
                } else {
                    old(self).hue()
                },
                final(self).state(),
            ),
            c == shown(final(self).state(), now_ms - final(self).entered_ms(), final(self).hue()),
    {
        if let Some(s) = update {
            self.state = s;
            self.entered_ms = now_ms;
            self.hue = 0;
        }
        self.last_ms = now_ms;
        let elapsed: u64 = now_ms - self.entered_ms;
        match &self.state {
            LedState::Off => off(),
            LedState::On(c) => *c,
            LedState::Flash(c, period) => {
                let half: u64 = if *period / 2 == 0 {
                    1
                } else {
                    (*period / 2) as u64
                };
                if (elapsed / half) % 2 == 0 {
                    *c
                } else {
                    off()
                }
            },
            LedState::Wheel(step) => {
                self.hue = ((self.hue as u64 + *step as u64) % 360) as u32;
                match Rgb::from_hsv(self.hue, WHEEL_SATURATION, WHEEL_VALUE) {
                    Ok(c) => c,
                    Err(_) => off(),
                }
            },
            LedState::Sequence(steps) => sequence_colour_at(steps, elapsed),
        }
    }
}

/// A flash shows its colour for the first half period after it is set, is
/// off for the next, and so on: at every elapsed time, one half period later
/// the other of the two is shown. A 500 ms flash changes every 250 ms.
pub proof fn lemma_flash_alternates(c: Rgb, period: u32, elapsed: int)
    requires
        elapsed >= 0,
    ensures
        flash_half(500) == 250,
        (elapsed / flash_half(period)) % 2 == 0 ==> flash_colour(c, period, elapsed) == c
            && flash_colour(c, period, elapsed + flash_half(period)) == black(),
        (elapsed / flash_half(period)) % 2 == 1 ==> flash_colour(c, period, elapsed) == black()
            && flash_colour(c, period, elapsed + flash_half(period)) == c,
{
    let h = flash_half(period);
    vstd::arithmetic::div_mod::lemma_fundamental_div_mod(elapsed, h);
    assert((elapsed / h + 1) * h + elapsed % h == elapsed + h) by (nonlinear_arith)
        requires
            elapsed == h * (elapsed / h) + elapsed % h,
    ;
    vstd::arithmetic::div_mod::lemma_fundamental_div_mod_converse(
        elapsed + h,
        h,
        elapsed / h + 1,
        elapsed % h,
    );
}

/// A sequence of two steps shows its first colour for the first step's
/// duration, then the second for the second's, and starts over: with red for
/// 250 ms and green for 500 ms, green from 250 ms on and red again at 750 ms.
pub proof fn lemma_two_step_sequence(a: Rgb, da: u32, b: Rgb, db: u32, elapsed: int)
    requires
        elapsed >= 0,
        da + db > 0,
    ensures
        sequence_colour(seq![(a, da), (b, db)], elapsed) == if elapsed % (da + db) < da {
            a
        } else {
            b
        },
{
    let s = seq![(a, da), (b, db)];
    assert(s.len() == 2 && s[0] == (a, da) && s[1] == (b, db));
    assert(steps_total(s, 0) == 0);
    assert(steps_total(s, 1) == da);
    assert(steps_total(s, 2) == da + db);
    let p = elapsed % (da + db);
    assert(0 <= p < da + db);
    if p < da {
        assert(step_at(s, p, 0) == 0);
    } else {
        assert(step_at(s, p, 1) == 1);
        assert(step_at(s, p, 0) == 1);
    }
}

} // verus!
