use c3zero::matrix_1d::{Matrix1D, Orientation, Panel};
use c3zero::message::{FormError, Message, MessageEngine};
use c3zero::rgb::{self, Rgb};
use c3zero::status::{LedState, StatusEngine};
use font8x8::UnicodeFonts;

fn strip_frame<const N: usize>(m: &Matrix1D<N>) -> Vec<Rgb> {
    let mut it = m.iter();
    let mut out = Vec::new();
    while let Some(c) = it.next() {
        out.push(c);
    }
    out
}

/// Whether the North-facing strip shows `text` in `c` with its left edge at `x`.
fn shows_text<const N: usize>(m: &Matrix1D<N>, text: &str, c: Rgb, x0: i32) -> bool {
    let frame = strip_frame(m);
    let chars: Vec<char> = text.chars().collect();
    (0..frame.len()).all(|k| {
        let (x, y) = (((k / 64) * 8 + k % 8) as i32, (k % 64) / 8);
        let dx = x - x0;
        let lit = dx >= 0
            && ((dx / 8) as usize) < chars.len()
            && font8x8::BASIC_FONTS
                .get(chars[(dx / 8) as usize])
                .map_or(false, |g| g[y] & (1 << (dx % 8)) != 0);
        frame[k] == if lit { c } else { rgb::off() }
    })
}

#[test]
fn flash_alternates_every_half_period() {
    let mut e = StatusEngine::new(1000);
    let red = rgb::red();
    assert_eq!(e.tick(Some(LedState::Flash(red, 500)), 1000), red);
    assert_eq!(e.tick(None, 1050), red);
    assert_eq!(e.tick(None, 1249), red);
    assert_eq!(e.tick(None, 1250), rgb::off());
    assert_eq!(e.tick(None, 1499), rgb::off());
    assert_eq!(e.tick(None, 1500), red);
    assert_eq!(e.tick(None, 1750), rgb::off());
}

#[test]
fn flash_ignores_wake_up_jitter() {
    // Irregular wake-ups give the same colours as regular ones at the same times.
    let red = rgb::red();
    let mut a = StatusEngine::new(0);
    let mut b = StatusEngine::new(0);
    a.tick(Some(LedState::Flash(red, 500)), 0);
    b.tick(Some(LedState::Flash(red, 500)), 0);
    for t in [13u64, 260, 261, 499, 742, 760, 1001, 1260] {
        let seen = b.tick(None, t);
        let want = if (t / 250) % 2 == 0 { red } else { rgb::off() };
        assert_eq!(seen, want, "at {}", t);
    }
    for t in (50..1300u64).step_by(50) {
        let want = if (t / 250) % 2 == 0 { red } else { rgb::off() };
        assert_eq!(a.tick(None, t), want);
    }
}

#[test]
fn shortest_flash_uses_clock_resolution() {
    let mut e = StatusEngine::new(0);
    let green = rgb::green();
    assert_eq!(e.tick(Some(LedState::Flash(green, 1)), 10), green);
    assert_eq!(e.tick(None, 11), rgb::off());
    assert_eq!(e.tick(None, 12), green);
    assert_eq!(e.tick(None, 15), rgb::off());
}

#[test]
fn new_intent_restarts_flash() {
    let red = rgb::red();
    let mut e = StatusEngine::new(0);
    e.tick(Some(LedState::Flash(red, 500)), 0);
    assert_eq!(e.tick(None, 300), rgb::off());
    assert_eq!(e.tick(Some(LedState::Flash(red, 500)), 310), red);
    assert_eq!(e.tick(None, 559), red);
    assert_eq!(e.tick(None, 560), rgb::off());
}

#[test]
fn sequence_cycles() {
    let red = rgb::red();
    let green = rgb::green();
    let mut e = StatusEngine::new(0);
    assert_eq!(e.tick(Some(LedState::Sequence(vec![(red, 250), (green, 500)])), 100), red);
    assert_eq!(e.tick(None, 349), red);
    assert_eq!(e.tick(None, 350), green);
    assert_eq!(e.tick(None, 849), green);
    assert_eq!(e.tick(None, 850), red);
    assert_eq!(e.tick(None, 1100), green);
}

#[test]
fn empty_sequence_stays_off() {
    let mut e = StatusEngine::new(0);
    assert_eq!(e.tick(Some(LedState::Sequence(vec![])), 0), rgb::off());
    assert_eq!(e.tick(None, 5000), rgb::off());
    let blue = rgb::blue();
    assert_eq!(e.tick(Some(LedState::Sequence(vec![(blue, 0), (rgb::red(), 0)])), 6000), blue);
    assert_eq!(e.tick(None, 6050), blue);
}

#[test]
fn on_off_and_wheel() {
    let mut e = StatusEngine::new(0);
    assert_eq!(e.tick(None, 10), rgb::off());
    assert_eq!(e.tick(Some(LedState::On(rgb::blue())), 20), rgb::blue());
    assert_eq!(e.tick(None, 70), rgb::blue());
    assert_eq!(e.tick(Some(LedState::Wheel(120)), 80), Rgb::new(0, 51, 0));
    assert_eq!(e.tick(None, 130), Rgb::new(0, 0, 51));
    assert_eq!(e.tick(None, 180), Rgb::new(51, 0, 0));
    // A new intent restarts the wheel at hue 0.
    assert_eq!(e.tick(Some(LedState::Wheel(60)), 190), Rgb::new(51, 51, 0));
    assert_eq!(e.tick(Some(LedState::Off), 200), rgb::off());
}

#[test]
fn form_modes() {
    assert_eq!(Message::from_form(0, "x".to_string(), 1, 2, 3, 4), Ok(Message::Off));
    assert_eq!(
        Message::from_form(1, "hi".to_string(), 1, 2, 3, 4),
        Ok(Message::Message("hi".to_string(), Rgb::new(1, 2, 3)))
    );
    assert_eq!(
        Message::from_form(2, "hi".to_string(), 1, 2, 3, 4),
        Ok(Message::Scroll("hi".to_string(), Rgb::new(1, 2, 3), 4))
    );
    assert_eq!(Message::from_form(3, String::new(), 0, 0, 0, 1), Err(FormError::InvalidMode));
    assert!(!Message::Scroll("hi".to_string(), rgb::red(), 0).is_valid());
    assert!(Message::Scroll("hi".to_string(), rgb::red(), 1).is_valid());
    assert!(Message::Off.is_valid());
}

#[test]
fn static_message_rendered_once() {
    let panels = [Panel::new(Orientation::North), Panel::new(Orientation::North)];
    let mut e = MessageEngine::<2>::new(panels);
    assert!(!e.tick(None));
    assert!(e.tick(Some(Message::Message("Hi".to_string(), rgb::blue()))));
    assert!(shows_text(e.frame(), "Hi", rgb::blue(), 0));
    assert!(!e.tick(None));
    assert!(e.tick(Some(Message::Off)));
    assert!(strip_frame(e.frame()).iter().all(|c| *c == rgb::off()));
}

#[test]
fn scroll_counts_characters_not_bytes() {
    let panels = [Panel::new(Orientation::North)];
    let mut e = MessageEngine::<1>::new(panels);
    let c = rgb::red();
    // Two characters in three bytes: 8 + 16 positions, 7 down to -16.
    assert!(e.tick(Some(Message::Scroll("Aé".to_string(), c, 1))));
    assert!(shows_text(e.frame(), "Aé", c, 7));
    for _ in 1..24 {
        assert!(e.tick(None));
    }
    assert!(shows_text(e.frame(), "Aé", c, -16));
    assert!(e.tick(None));
    assert!(shows_text(e.frame(), "Aé", c, 7));
}

#[test]
fn scroll_steps_at_rate_and_restarts() {
    let panels = [Panel::new(Orientation::North), Panel::new(Orientation::North)];
    let mut e = MessageEngine::<2>::new(panels);
    let c = Rgb::new(9, 9, 9);
    assert!(e.tick(Some(Message::Scroll("AB".to_string(), c, 2))));
    assert!(shows_text(e.frame(), "AB", c, 15));
    assert!(!e.tick(None));
    assert!(e.tick(None));
    assert!(shows_text(e.frame(), "AB", c, 14));
    // 16 + 16 positions per sweep: 15 down to -16, then again from 15.
    let mut last = 14;
    for _ in 0..30 {
        assert!(!e.tick(None));
        assert!(e.tick(None));
        last -= 1;
    }
    assert_eq!(last, -16);
    assert!(shows_text(e.frame(), "AB", c, -16));
    assert!(!e.tick(None));
    assert!(e.tick(None));
    assert!(shows_text(e.frame(), "AB", c, 15));
}
