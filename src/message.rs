//! The message panel's animation engine: static or scrolling text on a strip
//! of N panels. Each tick takes the message set since the last tick, if any,
//! and says whether a new frame was rendered and must be sent.
use vstd::prelude::*;

use crate::matrix_1d::{
    scroll_positions, text_lit, Matrix1D, ScrollIter, MAX_PANELS, MAX_SCROLL_CHARS,
};
use crate::rgb::{black, Rgb};

verus! {

/// How long the engine waits for a new message before ticking anyway.
pub const MESSAGE_POLL_MS: u64 = 25;

/// What the message panel should show.
#[derive(Clone, Debug, PartialEq, Eq)]
pub enum Message {
    Off,
    /// Text drawn once, from the left edge.
    Message(String, Rgb),
    /// Text scrolled right to left, one column every so many ticks.
    Scroll(String, Rgb, usize),
}

/// A message form named a mode other than 0 (off), 1 (static) or 2 (scroll).
#[derive(Clone, Copy, Debug, PartialEq, Eq, Structural)]
pub enum FormError {
    InvalidMode,
}

/// Whether a scrolling message can be shown: it moves at least every tick
/// and its width fits the coordinates.
pub open spec fn message_valid(m: Message) -> bool {
    match m {
        Message::Scroll(s, _, rate) => rate > 0 && s@.len() <= MAX_SCROLL_CHARS,
        _ => true,
    }
}

impl Message {
    /// The message a form asks for: mode 0 turns the panel off, 1 shows
    /// `text` still, 2 scrolls it one column every `delay` ticks.
    pub fn from_form(mode: u8, text: String, r: u8, g: u8, b: u8, delay: u8) -> (res: Result<
        Message,
        FormError,
    >)
        ensures
            mode == 0 ==> res == Ok::<Message, FormError>(Message::Off),
            mode == 1 ==> res == Ok::<Message, FormError>(Message::Message(text, Rgb { r, g, b })),
            mode == 2 ==> res == Ok::<Message, FormError>(
                Message::Scroll(text, Rgb { r, g, b }, delay as usize),
            ),
            mode > 2 ==> res == Err::<Message, FormError>(FormError::InvalidMode),
    {
        match mode {
            0 => Ok(Message::Off),
            1 => Ok(Message::Message(text, Rgb::new(r, g, b))),
            2 => Ok(Message::Scroll(text, Rgb::new(r, g, b), delay as usize)),
            _ => Err(FormError::InvalidMode),
        }
    }

    /// Whether the message can be shown: a scroll needs a rate of at least 1
    /// and at most `MAX_SCROLL_CHARS` characters.
    pub fn is_valid(&self) -> (ok: bool)
        ensures
            ok == message_valid(*self),
    {
        match self {
            Message::Scroll(s, _, rate) => *rate > 0 && s.as_str().unicode_len() <= MAX_SCROLL_CHARS,
            _ => true,
        }
    }
}

/// Whether `m` shows the text `t` in colour `c`, with its left edge at
/// column `x` and its top at row 0, and nothing else.
pub open spec fn shows_text<const N: usize>(m: Matrix1D<N>, t: Seq<char>, c: Rgb, x: int) -> bool {
    forall|p: int, q: int|
        Matrix1D::<N>::in_bounds(p, q) ==> #[trigger] m.pixel(p, q) == if text_lit(t, p - x, q) {
            c
        } else {
            black()
        }
}

/// Whether every pixel of `m` is dark.
pub open spec fn shows_nothing<const N: usize>(m: Matrix1D<N>) -> bool {
    forall|p: int, q: int| Matrix1D::<N>::in_bounds(p, q) ==> #[trigger] m.pixel(p, q) == black()
}

/// The message panel's engine: the strip it draws on, the message in force,
/// the scroll positions still to come, and the ticks since the last scroll
/// step, counted modulo the scroll rate.
pub struct MessageEngine<const N: usize> {
    matrix: Matrix1D<N>,
    message: Message,
    scroll: ScrollIter,
    phase: usize,
}

impl<const N: usize> MessageEngine<N> {
    pub closed spec fn matrix(&self) -> Matrix1D<N> {
        self.matrix
    }

    pub closed spec fn message(&self) -> Message {
        self.message
    }

    /// The scroll positions still to come in the current sweep.
    pub closed spec fn remaining(&self) -> Seq<int> {
        self.scroll.remaining()
    }

    /// Ticks since the last scroll step, modulo the scroll rate.
    pub closed spec fn phase(&self) -> int {
        self.phase as int
    }

    pub closed spec fn well_formed(&self) -> bool {
        &&& 0 < N <= MAX_PANELS
        &&& message_valid(self.message)
        &&& match self.message {
            Message::Scroll(_, _, rate) => self.phase < rate,
            _ => true,
        }
    }

    /// An engine that shows nothing yet, drawing on `panels`.
    pub fn new(panels: [crate::matrix_1d::Panel; N]) -> (e: Self)
        requires
            0 < N <= MAX_PANELS,
        ensures
            e.well_formed(),
            e.message() == Message::Off,
            forall|i: int| 0 <= i < N ==> #[trigger] e.matrix().panel(i) == panels@[i],
    {
        MessageEngine {
            matrix: Matrix1D::from_panels(panels),
            message: Message::Off,
            scroll: ScrollIter::finished(),
            phase: 0,
        }
    }

    /// The strip, to be read out after a tick that rendered a frame.
    pub fn frame(&self) -> (m: &Matrix1D<N>)
        ensures
            *m == self.matrix(),
    {
        &self.matrix
    }

    /// One wake-up, with the message set since the last one, if any. A new
    /// `Off` or static message is rendered at once; a new scroll restarts
    /// its sweep and steps at once. A scroll steps every `rate` ticks, to the
    /// next position of its sweep, and starts the sweep again when it is
    /// over. Returns whether a new frame was rendered, to be sent.
    pub fn tick(&mut self, update: Option<Message>) -> (sent: bool)
        requires
            old(self).well_formed(),
            update is Some ==> message_valid(update->0),
        ensures
            final(self).well_formed(),
            final(self).message() == match update {
                Some(m) => m,
                None => old(self).message(),
            },
            final(self).matrix().same_orientations(old(self).matrix()),
            match final(self).message() {
                Message::Off => {
                    &&& sent == update is Some
                    &&& sent ==> shows_nothing(final(self).matrix())
                    &&& !sent ==> final(self).matrix() == old(self).matrix()
                },
                Message::Message(s, c) => {
                    &&& sent == update is Some
                    &&& sent ==> shows_text(final(self).matrix(), s@, c, 0)
                    &&& !sent ==> final(self).matrix() == old(self).matrix()
                },
                Message::Scroll(s, c, rate) => {
                    let phase = if update is Some {
                        0
                    } else {
                        old(self).phase()
                    };
                    let sweep = if update is Some {
                        scroll_positions(N as int, s@.len() as int)
                    } else {
                        old(self).remaining()
                    };
                    let run = if sweep.len() > 0 {
                        sweep
                    } else {
                        scroll_positions(N as int, s@.len() as int)
                    };
                    &&& sent == (phase == 0)
                    &&& final(self).phase() == (phase + 1) % (rate as int)
                    &&& sent ==> shows_text(final(self).matrix(), s@, c, run[0])
                        && final(self).remaining() == run.drop_first()
                    &&& !sent ==> final(self).matrix() == old(self).matrix()
                        && final(self).remaining() == old(self).remaining()
                },
            },
    {
        let mut sent = false;
        if let Some(m) = update {
            self.message = m;
            match &self.message {
                Message::Off => {
                    self.matrix.clear();
                    sent = true;
                },
                Message::Message(s, c) => {
                    self.matrix.clear();
                    self.matrix.draw_str(s.as_str(), *c, (0, 0));
                    sent = true;
                },
                Message::Scroll(s, _, _) => {
                    self.scroll = self.matrix.scroll_iter(s.as_str().unicode_len());
                    self.phase = 0;
                },
            }
        }
        if let Message::Scroll(s, c, rate) = &self.message {
            if self.phase == 0 {
                let x = match self.scroll.next() {
                    Some(x) => x,
                    None => {
                        self.scroll = self.matrix.scroll_iter(s.as_str().unicode_len());
                        match self.scroll.next() {
                            Some(x) => x,
                            None => 0,
                        }
                    },
                };
                self.matrix.clear();
                self.matrix.draw_str(s.as_str(), *c, (x, 0));
                sent = true;
            }
            self.phase = (self.phase + 1) % *rate;
        }
        sent
    }
}

} // verus!
