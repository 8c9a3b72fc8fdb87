use flow::overlay;
use flow::overlay::Change;
use flow::overlay_model::{
    fade_into_background, tail_that_fits, Meter, OverlayModel, OverlayState, Tick, BARS, COL_ACCENT,
    COL_BG, COL_DONE, COL_ERROR, COL_HINT, COL_KEYCAP, COL_TEXT, COL_TEXT_LIVE, DONE_LINGER,
    ERROR_LINGER, LISTENING_TICK,
};
use flow::platform::windows::overlay::{
    caret, channels, colorref, layout, position, premultiply_with_mask, rounded_mask, Metrics,
    Overlay, Rect, Show,
};
use flow::platform::windows::paint::{paint, Draw};

const MS: u64 = 1_000_000;

fn blend(bg: u8, src: u8, d: i32, span: i32) -> u8 {
    let t = d as f32 / span as f32;
    (bg as f32 * (1.0 - t) + src as f32 * t) as u8
}

fn corner(dx2: i32, dy2: i32, r: i32, opacity: u8) -> u8 {
    let (dx, dy) = (dx2 as f32 / 2.0, dy2 as f32 / 2.0);
    let d = (dx * dx + dy * dy).sqrt();
    ((r as f32 + 0.5 - d).clamp(0.0, 1.0) * opacity as f32) as u8
}

#[test]
fn fade_reaches_the_background_and_leaves_the_rest() {
    let (w, h) = (20, 4);
    let mut px = vec![200u8; (w * h * 4) as usize];
    let bg = [10u8, 20, 30];
    fade_into_background(&mut px, w, h, 0, 10, bg, blend);
    assert_eq!(px[0], bg[0], "left edge is fully background");
    assert_eq!(px[(15 * 4) as usize], 200, "beyond the band, untouched");
}

#[test]
fn fade_is_cut_to_the_picture_and_spares_alpha() {
    let (w, h) = (4, 2);
    let mut px = vec![100u8; (w * h * 4) as usize];
    fade_into_background(&mut px, w, h, -5, 2, [0, 0, 0], blend);
    assert_eq!(&px[0..8], &[0, 0, 0, 100, 50, 50, 50, 100]);
    assert_eq!(&px[8..16], &[100; 8]);
    assert_eq!(&px[16..24], &[0, 0, 0, 100, 50, 50, 50, 100]);
    let before = px.clone();
    fade_into_background(&mut px, w, h, 3, 3, [0, 0, 0], blend);
    fade_into_background(&mut px, w, h, 4, 9, [0, 0, 0], blend);
    assert_eq!(px, before);
}

/// One character is worth one unit, which is enough to check the walk.
fn by_char(s: &str) -> i32 {
    s.chars().count() as i32
}

#[test]
fn short_text_is_left_alone() {
    let (shown, clipped) = tail_that_fits("hello there", 40, by_char);
    assert_eq!(shown, "hello there");
    assert!(!clipped);
}

#[test]
fn long_text_keeps_the_end_on_a_word_boundary() {
    let (shown, clipped) = tail_that_fits("one two three four five", 12, by_char);
    assert!(clipped, "something had to go");
    assert!(shown.ends_with("five"), "the newest words survive: {shown}");
    assert!(by_char(&shown) <= 12, "and it fits: {shown}");
    assert!(!shown.starts_with(' '), "no leading space: {shown:?}");
    assert_eq!(shown, "four five");
}

#[test]
fn one_long_word_falls_back_to_characters() {
    let (shown, clipped) = tail_that_fits("abcdefghijklmnop", 5, by_char);
    assert!(clipped);
    assert_eq!(shown, "lmnop");
}

#[test]
fn no_room_means_no_text() {
    let (shown, clipped) = tail_that_fits("anything", 0, by_char);
    assert!(shown.is_empty());
    assert!(!clipped);
}

#[test]
fn a_long_last_word_is_cut_inside() {
    let (shown, clipped) = tail_that_fits("so it is unputdownable", 6, by_char);
    assert_eq!(shown, "wnable");
    assert!(clipped);
}

#[test]
fn done_hides_after_its_linger_and_listening_keeps_animating() {
    let mut o = OverlayModel::new("Ctrl", 0);
    o.set(OverlayState::Listening, "", 0);
    assert_eq!(o.tick(0), Tick::Redraw(LISTENING_TICK));

    let now = 10_000 * MS;
    o.set(OverlayState::Done, "landed", now);
    assert_eq!(o.tick(now), Tick::Wait(120));
    o.shown_at = now - DONE_LINGER * MS;
    assert_eq!(o.tick(now), Tick::Hide);

    o.set(OverlayState::Hidden, "", now);
    assert_eq!(o.tick(now), Tick::Idle);
}

#[test]
fn error_lingers_longer_than_done() {
    let now = 10_000 * MS;
    let mut o = OverlayModel::new("Ctrl", now);
    o.set(OverlayState::Error, "nothing heard", now);
    o.shown_at = now - DONE_LINGER * MS;
    assert_eq!(o.tick(now), Tick::Wait(200), "still up");
    o.shown_at = now - ERROR_LINGER * MS;
    assert_eq!(o.tick(now), Tick::Hide);
}

/// A meter as a shell keeps one beside the pill.
struct Trace {
    level: f32,
    bars: [f32; BARS],
}

impl Trace {
    fn set(&mut self, o: &mut OverlayModel, state: OverlayState, text: &str) {
        if o.set(state, text, 0) {
            self.level = 0.0;
            self.bars = [0.0; BARS];
        }
    }

    fn advance(&mut self, peak: f32) {
        let target = (peak.sqrt() * 1.7).min(1.0);
        self.level = self.level * 0.35 + target * 0.65;
        for b in &mut self.bars {
            *b += (self.level - *b) * 0.5;
        }
    }
}

#[test]
fn entering_listening_clears_the_meter() {
    let mut o = OverlayModel::new("Ctrl", 0);
    let mut m = Trace { level: 0.0, bars: [0.0; BARS] };
    m.set(&mut o, OverlayState::Listening, "");
    for _ in 0..20 {
        m.advance(0.5);
    }
    assert!(m.level > 0.1);
    m.set(&mut o, OverlayState::Done, "landed");
    assert!(m.level > 0.1 && m.bars.iter().all(|b| *b > 0.1));
    m.set(&mut o, OverlayState::Listening, "");
    assert_eq!(m.level, 0.0, "a new hold starts from silence");
    assert!(m.bars.iter().all(|b| *b == 0.0));
    assert!(!o.set(OverlayState::Listening, "words", 0));
}

#[test]
fn the_pill_reminds_of_the_key_that_is_held() {
    let mut o = OverlayModel::new("Ctrl", 7);
    o.set(OverlayState::Done, "landed", 9);
    o.remind("F13");
    assert_eq!((o.hint_key.as_str(), o.text.as_str(), o.shown_at), ("F13", "landed", 9));
    let mut pill = Overlay::create("Ctrl", 0);
    assert_eq!(pill.remind("Alt"), Show::Nothing);
    pill.set(OverlayState::Listening, "", 0);
    assert_eq!(pill.remind("Caps"), Show::Paint);
    assert_eq!(pill.model.hint_key, "Caps");
}

#[test]
fn empty_states_say_something() {
    let mut o = OverlayModel::new("Ctrl", 0);
    o.set(OverlayState::Listening, "", 0);
    assert_eq!(o.body(), "Listening");
    o.set(OverlayState::Finalising, "", 0);
    assert_eq!(o.body(), "Transcribing");
    o.set(OverlayState::Listening, "some words", 0);
    assert_eq!(o.body(), "some words");
    o.set(OverlayState::Error, " ", 0);
    assert_eq!(o.body(), "Nothing heard");
    o.set(OverlayState::Done, "", 0);
    assert_eq!(o.body(), "");
}

#[test]
fn colours_and_the_meter_follow_the_state() {
    let mut o = OverlayModel::new("Ctrl", 0);
    o.set(OverlayState::Listening, " ", 0);
    assert_eq!(o.accent(), COL_ACCENT);
    assert_eq!(o.text_colour(), COL_TEXT);
    assert_eq!(o.meter(), Meter::Sample);
    assert!(o.is_live());
    o.set(OverlayState::Listening, "x", 0);
    assert_eq!(o.text_colour(), COL_TEXT_LIVE);
    o.set(OverlayState::Finalising, "x", 0);
    assert_eq!(o.meter(), Meter::Settle);
    assert!(o.is_live());
    o.set(OverlayState::Done, "x", 0);
    assert_eq!(o.accent(), COL_DONE);
    assert_eq!(o.meter(), Meter::Still);
    o.set(OverlayState::Error, "x", 0);
    assert_eq!(o.accent(), COL_ERROR);
    assert_eq!(o.text_colour(), COL_HINT);
    assert!(!o.is_live());
}

#[test]
fn mask_cuts_corners_and_keeps_the_middle() {
    let (w, h) = (60, 20);
    let mask = rounded_mask(w, h, h / 2, 255, corner);
    let at = |x: i32, y: i32| mask[(y * w + x) as usize];
    assert_eq!(at(0, 0), 0, "top-left corner cut away");
    assert_eq!(at(w - 1, h - 1), 0, "bottom-right too");
    assert_eq!(at(w / 2, h / 2), 255, "middle solid");
    assert_eq!(at(w / 2, 0), 255, "top edge is not a corner");
}

#[test]
fn colour_is_premultiplied() {
    let (w, h) = (10, 10);
    let mut px = vec![200u8; (w * h * 4) as usize];
    let mask = vec![128u8; (w * h) as usize];
    premultiply_with_mask(&mut px, &mask);
    assert_eq!(px[3], 128);
    assert_eq!(px[0], (200 * 128 / 255) as u8);
}

#[test]
fn transparent_pixels_are_cleared_entirely() {
    let mut px = vec![200u8; 4 * 4];
    let mask = vec![0u8, 255, 0, 255];
    premultiply_with_mask(&mut px, &mask);
    assert_eq!(&px[0..4], &[0, 0, 0, 0]);
    assert_eq!(px[7], 255);
}

/// The shared colours are plain RGB; GDI wants them the other way round.
#[test]
fn colours_survive_the_trip_to_gdi() {
    assert_eq!(colorref(COL_ACCENT), 0x00_3C_60_F0);
    assert_eq!(colorref(COL_BG), 0x00_1C_1D_1E);
    assert_eq!(colorref(COL_KEYCAP), 0x00_36_38_3A);
}

#[test]
fn a_colour_comes_back_from_its_word() {
    assert_eq!(channels(colorref(COL_ACCENT)), COL_ACCENT);
    assert_eq!(channels(0xFF_3C_60_F0), COL_ACCENT);
}

fn metrics() -> Metrics {
    Metrics {
        pad: 17,
        dot_radius: 5,
        dot_to_wave: 13,
        bar_width: 3,
        bar_gap: 3,
        wave_to_text: 15,
        caret_space: 10,
        caret_offset: 5,
        caret_width: 2,
        caret_height: 18,
        caret_clearance: 2,
        keycap_height: 20,
        keycap_pad: 7,
        hold_to_keycap: 8,
        hint_to_text: 14,
        bottom_margin: 78,
    }
}

#[test]
fn the_pill_is_laid_out() {
    let m = metrics();
    assert_eq!(m.dot(44), Rect { left: 17, top: 17, right: 27, bottom: 27 });
    let (bar, rounded) = m.bar(44, 2, 26);
    assert_eq!(bar, Rect { left: 52, top: 9, right: 55, bottom: 35 });
    assert!(rounded);
    assert!(!m.bar(44, 0, 9).1);

    let l = layout(&m, OverlayState::Listening, 560, 44, 30, 28);
    let hint = l.hint.unwrap();
    assert_eq!(hint.keycap, Rect { left: 499, top: 12, right: 543, bottom: 32 });
    assert_eq!(hint.name_left, 506);
    assert_eq!(hint.hold_left, 463);
    assert_eq!(l.right_edge, 449);
    assert_eq!(l.text_left, 40 + 63 + 15);
    assert_eq!(l.text_max, 449 - 118 - 10);
    let c = caret(&m, &l, OverlayState::Listening, 44, 100).unwrap();
    assert_eq!(c, Rect { left: 223, top: 13, right: 225, bottom: 31 });
    let c = caret(&m, &l, OverlayState::Listening, 44, 400).unwrap();
    assert_eq!(c.left, 447);

    let l = layout(&m, OverlayState::Done, 560, 44, 30, 28);
    assert_eq!((l.hint, l.text_left, l.right_edge, l.text_max), (None, 40, 543, 503));
    assert_eq!(caret(&m, &l, OverlayState::Done, 44, 100), None);

    assert_eq!(position(&m, 0, 1920, 1040, 560, 44), (680, 918));
    assert_eq!(position(&m, 0, 501, 1040, 560, 44).0, -29);
}

#[test]
fn the_window_follows_the_pill() {
    let mut o = Overlay::create("Ctrl", 0);
    assert!(!o.is_visible());
    assert_eq!(o.set(OverlayState::Listening, "", 0), (Show::PaintAndShow, true));
    assert_eq!(o.tick(0), (Show::Paint, Some(40)));
    assert_eq!(o.set(OverlayState::Done, "x", 0), (Show::Paint, false));
    assert_eq!(o.tick(999 * MS), (Show::Nothing, Some(120)));
    assert_eq!(o.tick(1000 * MS), (Show::Hide, None));
    assert!(!o.is_visible());
    assert_eq!(o.tick(1000 * MS), (Show::Nothing, None));

    let mut off = Overlay::disabled(0);
    assert_eq!(off.set(OverlayState::Error, "x", 0).0, Show::Nothing);
    assert!(!off.is_visible());
}

#[test]
fn the_plain_pill_repaints_only_on_a_change() {
    let mut o = overlay::Overlay::create();
    assert_eq!(o.set(overlay::OverlayState::Listening, ""), Change::Paint);
    assert_eq!(o.label(), "Listening...");
    assert_eq!(o.set(overlay::OverlayState::Listening, ""), Change::Nothing);
    assert_eq!(o.set(overlay::OverlayState::Finalising, ""), Change::Paint);
    assert_eq!(o.label(), "Finishing...");
    assert_eq!(o.set(overlay::OverlayState::Error, "oops"), Change::Paint);
    assert_eq!(o.label(), "Flow: oops");
    assert_eq!(o.colours(), (0x3333DD, 0x4444FF));
    assert_eq!(o.set(overlay::OverlayState::Hidden, ""), Change::Hide);
    assert_eq!(overlay::position(1920, 1080), (730, 904));
    let mut px = vec![1u8; 9];
    overlay::make_opaque(&mut px);
    assert_eq!(px, [1, 1, 1, 255, 1, 1, 1, 255, 1]);
}

fn listed(model: &OverlayModel, m: &Metrics, heights: &[i32; 11]) -> Vec<String> {
    // Six pixels to a character.
    let measure = |s: &str| s.chars().count() as i32 * 6;
    paint(model, m, 560, 44, heights, 30, 28, measure)
        .iter()
        .map(|d| match d {
            Draw::Background => "background".to_string(),
            Draw::Dot { at, dimmed, .. } => format!("dot {} {dimmed}", at.left),
            Draw::Bar { at, index, rounded } => format!("bar {index} {} {rounded}", at.left),
            Draw::Keycap { at } => format!("cap {} {}", at.left, at.right),
            Draw::KeyName { left, right } => format!("name {left} {right}"),
            Draw::Hold { left, right } => format!("hold {left} {right}"),
            Draw::Words { text, left, right, .. } => format!("words {text} {left} {right}"),
            Draw::Caret { at } => format!("caret {}", at.left),
            Draw::Fade { from } => format!("fade {from}"),
        })
        .collect()
}

#[test]
fn the_pill_is_drawn_from_back_to_front() {
    let m = metrics();
    let mut model = OverlayModel::new("Ctrl", 0);
    model.set(OverlayState::Listening, "hello", 0);
    let mut heights = [3; 11];
    heights[5] = 26;
    let out = listed(&model, &m, &heights);
    let l = layout(&m, OverlayState::Listening, 560, 44, 30, 28);
    assert_eq!(out[0], "background");
    assert_eq!(out[1], "dot 17 false");
    assert_eq!(out[2], "bar 0 40 false");
    assert_eq!(out[7], "bar 5 70 true");
    assert_eq!(out[12], "bar 10 100 false");
    let hint = l.hint.unwrap();
    assert_eq!(out[13], format!("cap {} 543", hint.keycap.left));
    assert_eq!(out[14], format!("name {} 543", hint.name_left));
    assert_eq!(out[15], format!("hold {} {}", hint.hold_left, hint.keycap.left));
    assert_eq!(out[16], format!("words hello {} {}", l.text_left, l.right_edge));
    assert_eq!(out[17], format!("caret {}", l.text_left + 30 + 5));
    assert_eq!(out.len(), 18);

    // A sentence that is too long shows its end, and fades on the left.
    model.set(OverlayState::Listening, &"word ".repeat(40), 0);
    let out = listed(&model, &m, &heights);
    assert_eq!(out.len(), 19);
    assert_eq!(out[18], format!("fade {}", l.text_left));

    // A confirmation has neither a trace nor a reminder nor a caret.
    model.set(OverlayState::Done, "sent", 0);
    let out = listed(&model, &m, &heights);
    assert_eq!(out, ["background", "dot 17 false", "words sent 40 543"]);
    model.set(OverlayState::Done, "", 0);
    assert_eq!(listed(&model, &m, &heights), ["background", "dot 17 false"]);
    model.set(OverlayState::Finalising, "", 0);
    let out = listed(&model, &m, &heights);
    assert_eq!(out[1], "dot 17 true");
    assert_eq!(out.len(), 14);
}
