//! Everything about the status pill that is neither drawing nor the meter.
//!
//! Times of day are nanoseconds on one monotonic clock; spans are milliseconds.

use vstd::prelude::*;
use crate::asr_service;
use crate::chars;
use crate::chars::{from_chars, to_chars};
use crate::words;
use crate::words::{copy_range, trim_chars, Class};

verus! {

#[derive(Clone, Copy, PartialEq, Eq, Debug, Structural)]
pub enum OverlayState {
    Hidden,
    /// Key is down, audio is being captured.
    Listening,
    /// Key released, the recogniser is finishing.
    Finalising,
    /// Text went into the target application. Shown briefly, then gone.
    Done,
    Error,
}

/// How long a confirmation stays up.
pub const DONE_LINGER: u64 = 1000;

/// How long an error stays up.
pub const ERROR_LINGER: u64 = 3000;

/// 25 frames a second, and only while the pill is on screen.
pub const LISTENING_TICK: u64 = 40;

/// How long to wait before looking at a confirmation again.
pub const DONE_LOOK: u64 = 120;

/// How long to wait before looking at an error again.
pub const ERROR_LOOK: u64 = 200;

/// Bars in the waveform.
pub const BARS: usize = 11;

pub const COL_BG: [u8; 3] = [0x1E, 0x1D, 0x1C];

/// Coral. The one warm thing on screen, so "it is recording" reads instantly.
pub const COL_ACCENT: [u8; 3] = [0xF0, 0x60, 0x3C];

pub const COL_DONE: [u8; 3] = [0x57, 0xC4, 0x6A];

pub const COL_ERROR: [u8; 3] = [0xE5, 0x48, 0x4D];

pub const COL_TEXT: [u8; 3] = [0xF2, 0xF2, 0xF2];

pub const COL_TEXT_LIVE: [u8; 3] = [0xD6, 0xD6, 0xD6];

pub const COL_HINT: [u8; 3] = [0x8E, 0x8E, 0x8E];

pub const COL_KEYCAP: [u8; 3] = [0x3A, 0x38, 0x36];

pub const COL_KEYCAP_TEXT: [u8; 3] = [0xD8, 0xD8, 0xD8];

pub const COL_WAVE: [u8; 3] = [0xBC, 0xBC, 0xBC];

/// How opaque the pill is: not quite solid, so what is behind it stays faintly
/// there.
pub const PILL_OPACITY: u8 = 244;

/// What to do after a tick.
#[derive(Clone, Copy, PartialEq, Eq, Debug, Structural)]
pub enum Tick {
    /// The animation moved. Repaint, then look again after this long.
    Redraw(u64),
    /// Nothing changed, but the pill is still up. Look again after this long.
    Wait(u64),
    /// It has been up long enough. Take it down and stop ticking.
    Hide,
    /// Nothing on screen. The loop can sleep until something else wakes it.
    Idle,
}

/// What the meter does at a tick.
#[derive(Clone, Copy, PartialEq, Eq, Debug, Structural)]
pub enum Meter {
    /// Take in the loudest sample since the last frame and move on.
    Sample,
    /// Take in silence and move on, so that the trace settles.
    Settle,
    /// Stay as it is.
    Still,
}

/// The pill's state, minus anything to do with a window or with the meter.
pub struct OverlayModel {
    pub state: OverlayState,
    pub text: String,
    /// When the state last changed.
    pub shown_at: u64,
    /// Which key the user is holding, drawn on the right as a reminder.
    pub hint_key: String,
}

/// Whether a span in milliseconds has gone by.
pub open spec fn past(shown_at: u64, now: u64, span: u64) -> bool {
    asr_service::since(shown_at as int, now as int) >= span * 1_000_000
}

/// What to do with a pill in a state at a moment.
pub open spec fn tick_of(state: OverlayState, shown_at: u64, now: u64) -> Tick {
    match state {
        OverlayState::Listening => Tick::Redraw(LISTENING_TICK),
        OverlayState::Finalising => Tick::Redraw(LISTENING_TICK),
        OverlayState::Done => if past(shown_at, now, DONE_LINGER) {
            Tick::Hide
        } else {
            Tick::Wait(DONE_LOOK)
        },
        OverlayState::Error => if past(shown_at, now, ERROR_LINGER) {
            Tick::Hide
        } else {
            Tick::Wait(ERROR_LOOK)
        },
        OverlayState::Hidden => Tick::Idle,
    }
}

/// The accent colour of a state.
pub open spec fn accent_of(state: OverlayState) -> Seq<u8> {
    match state {
        OverlayState::Done => COL_DONE@,
        OverlayState::Error => COL_ERROR@,
        _ => COL_ACCENT@,
    }
}

/// The colour that the words of a state are drawn in.
pub open spec fn text_colour_of(state: OverlayState, text: Seq<char>) -> Seq<u8> {
    if state == OverlayState::Listening && words::trim(text).len() > 0 {
        COL_TEXT_LIVE@
    } else if state == OverlayState::Error {
        COL_HINT@
    } else {
        COL_TEXT@
    }
}

/// The words that stand in the pill.
pub open spec fn caption(state: OverlayState, text: Seq<char>) -> Seq<char> {
    let shown = words::trim(text);
    if shown.len() > 0 {
        shown
    } else {
        match state {
            OverlayState::Listening => "Listening"@,
            OverlayState::Finalising => "Transcribing"@,
            OverlayState::Error => "Nothing heard"@,
            _ => Seq::<char>::empty(),
        }
    }
}

fn has_passed(shown_at: u64, now: u64, span: u64) -> (r: bool)
    ensures
        r == past(shown_at, now, span),
{
    let gap: u64 = if now >= shown_at {
        now - shown_at
    } else {
        0
    };
    gap as u128 >= span as u128 * 1_000_000
}

impl OverlayModel {
    pub fn new(hint_key: &str, now: u64) -> (m: OverlayModel)
        ensures
            m.state == OverlayState::Hidden,
            m.text@ == Seq::<char>::empty(),
            m.shown_at == now,
            m.hint_key@ == hint_key@,
    {
        OverlayModel {
            state: OverlayState::Hidden,
            text: String::new(),
            shown_at: now,
            hint_key: hint_key.to_owned(),
        }
    }

    /// Writes another key on the cap.
    pub fn remind(&mut self, hint_key: &str)
        ensures
            *final(self) == (OverlayModel { hint_key: final(self).hint_key, ..*old(self) }),
            final(self).hint_key@ == hint_key@,
    {
        self.hint_key = hint_key.to_owned();
    }

    /// Records a new state and new words. Says whether the meter starts from
    /// silence, as it does whenever listening begins.
    pub fn set(&mut self, state: OverlayState, text: &str, now: u64) -> (clear_meter: bool)
        ensures
            final(self).state == state,
            final(self).text@ == text@,
            final(self).hint_key == old(self).hint_key,
            final(self).shown_at == (if state != old(self).state {
                now
            } else {
                old(self).shown_at
            }),
            clear_meter == (state != old(self).state && state == OverlayState::Listening),
    {
        let fresh: bool = state != self.state;
        if fresh {
            self.shown_at = now;
        }
        self.state = state;
        self.text = text.to_owned();
        fresh && state == OverlayState::Listening
    }

    /// What to do now.
    pub fn tick(&self, now: u64) -> (t: Tick)
        ensures
            t == tick_of(self.state, self.shown_at, now),
    {
        match self.state {
            OverlayState::Listening => Tick::Redraw(LISTENING_TICK),
            OverlayState::Finalising => Tick::Redraw(LISTENING_TICK),
            OverlayState::Done => {
                if has_passed(self.shown_at, now, DONE_LINGER) {
                    Tick::Hide
                } else {
                    Tick::Wait(DONE_LOOK)
                }
            },
            OverlayState::Error => {
                if has_passed(self.shown_at, now, ERROR_LINGER) {
                    Tick::Hide
                } else {
                    Tick::Wait(ERROR_LOOK)
                }
            },
            OverlayState::Hidden => Tick::Idle,
        }
    }

    /// What the meter does at a tick. While the recogniser finishes the trace
    /// keeps moving as it settles, so that the moment between release and text
    /// does not look like a freeze.
    pub fn meter(&self) -> (m: Meter)
        ensures
            m == (match self.state {
                OverlayState::Listening => Meter::Sample,
                OverlayState::Finalising => Meter::Settle,
                _ => Meter::Still,
            }),
    {
        match self.state {
            OverlayState::Listening => Meter::Sample,
            OverlayState::Finalising => Meter::Settle,
            _ => Meter::Still,
        }
    }

    /// Whether the meter and the words are live, as opposed to a confirmation.
    pub fn is_live(&self) -> (r: bool)
        ensures
            r == (self.state == OverlayState::Listening || self.state == OverlayState::Finalising),
    {
        self.state == OverlayState::Listening || self.state == OverlayState::Finalising
    }

    /// The accent colour for the current state.
    pub fn accent(&self) -> (c: [u8; 3])
        ensures
            c@ == accent_of(self.state),
    {
        match self.state {
            OverlayState::Done => COL_DONE,
            OverlayState::Error => COL_ERROR,
            _ => COL_ACCENT,
        }
    }

    /// The colour the words are drawn in.
    pub fn text_colour(&self) -> (c: [u8; 3])
        ensures
            c@ == text_colour_of(self.state, self.text@),
    {
        match self.state {
            OverlayState::Listening => {
                let all: Vec<char> = to_chars(self.text.as_str());
                let shown: Vec<char> = trim_chars(all.as_slice(), Class::Whitespace);
                if shown.len() > 0 {
                    COL_TEXT_LIVE
                } else {
                    COL_TEXT
                }
            },
            OverlayState::Error => COL_HINT,
            _ => COL_TEXT,
        }
    }

    /// The words to draw. Empty states get a caption rather than a blank pill,
    /// which would look like the app had stalled.
    pub fn body(&self) -> (s: String)
        ensures
            s@ == caption(self.state, self.text@),
    {
        let all: Vec<char> = to_chars(self.text.as_str());
        let shown: Vec<char> = trim_chars(all.as_slice(), Class::Whitespace);
        if shown.len() > 0 {
            from_chars(shown.as_slice())
        } else {
            match self.state {
                OverlayState::Listening => "Listening".to_owned(),
                OverlayState::Finalising => "Transcribing".to_owned(),
                OverlayState::Error => "Nothing heard".to_owned(),
                _ => String::new(),
            }
        }
    }
}

/// An error stays up at least as long as a confirmation does.
pub proof fn law_error_lingers_longer_than_done(shown_at: u64, now: u64)
    ensures
        tick_of(OverlayState::Error, shown_at, now) == Tick::Hide ==> tick_of(
            OverlayState::Done,
            shown_at,
            now,
        ) == Tick::Hide,
{
}

/// A pill that confirms or complains is taken down once its time is over, and
/// not before; one that listens or finishes is never taken down by a tick.
pub proof fn law_pill_is_taken_down_in_time(state: OverlayState, shown_at: u64, now: u64)
    ensures
        tick_of(state, shown_at, now) == Tick::Hide <==> {
            ||| state == OverlayState::Done && now >= shown_at + 1_000_000_000
            ||| state == OverlayState::Error && now >= shown_at + 3_000_000_000
        },
        tick_of(state, shown_at, now) == Tick::Idle <==> state == OverlayState::Hidden,
{
}

/// While the pill is live or complains it never stands empty.
pub proof fn law_live_pill_says_something(state: OverlayState, text: Seq<char>)
    requires
        state != OverlayState::Hidden,
        state != OverlayState::Done,
    ensures
        caption(state, text).len() > 0,
{
    reveal_strlit("Listening");
    reveal_strlit("Transcribing");
    reveal_strlit("Nothing heard");
}

// ---- the end of a text that fits ----------------------------------------------

/// The measure finds that a text fits.
pub open spec fn fits<F: Fn(&str) -> i32>(measure: F, s: Seq<char>, max_px: i32) -> bool {
    exists|t: &str, n: i32| t@ == s && #[trigger] measure.ensures((t,), n) && n <= max_px
}

/// The measure finds that a text is too wide.
pub open spec fn too_wide<F: Fn(&str) -> i32>(measure: F, s: Seq<char>, max_px: i32) -> bool {
    exists|t: &str, n: i32| t@ == s && #[trigger] measure.ensures((t,), n) && n > max_px
}

/// A word begins here: a space stands before it.
pub open spec fn word_start(s: Seq<char>, k: int) -> bool {
    0 < k <= s.len() && s[k - 1] == ' '
}

/// The text from `k` on is what remains when whole words are dropped from the
/// left: it fits, so does everything from a later word on, and the word before
/// it, if there is one, is too much.
pub open spec fn word_cut<F: Fn(&str) -> i32>(
    measure: F,
    s: Seq<char>,
    max_px: i32,
    k: int,
) -> bool {
    &&& word_start(s, k)
    &&& forall|j: int| k <= j && #[trigger] word_start(s, j) ==> fits(measure, s.skip(j), max_px)
    &&& (forall|j: int| #[trigger] word_start(s, j) ==> k <= j) || last_too_wide(
        measure,
        s,
        max_px,
        k,
    )
}

/// The last word start before `k` leaves too much.
pub open spec fn last_too_wide<F: Fn(&str) -> i32>(
    measure: F,
    s: Seq<char>,
    max_px: i32,
    k: int,
) -> bool {
    exists|p: int|
        {
            &&& p < k
            &&& #[trigger] word_start(s, p)
            &&& too_wide(measure, s.skip(p), max_px)
            &&& forall|j: int| p < j < k ==> !#[trigger] word_start(s, j)
        }
}

/// No cut at a word will do: there is no word start, or even the last leaves
/// too much.
pub open spec fn no_word_cut<F: Fn(&str) -> i32>(
    measure: F,
    s: Seq<char>,
    max_px: i32,
) -> bool {
    (forall|j: int| !#[trigger] word_start(s, j)) || last_too_wide(
        measure,
        s,
        max_px,
        s.len() as int + 1,
    )
}

/// The text from `k` on is what remains when characters are dropped from the
/// left until the rest fits.
pub open spec fn char_cut<F: Fn(&str) -> i32>(
    measure: F,
    s: Seq<char>,
    max_px: i32,
    k: int,
) -> bool {
    &&& 0 <= k <= s.len()
    &&& forall|j: int| k <= j < s.len() ==> fits(measure, #[trigger] s.skip(j), max_px)
    &&& k > 0 ==> too_wide(measure, s.skip(k - 1), max_px)
}

/// What is shown of a text and whether anything of it was dropped: all of it where
/// it fits; else what remains when whole words are dropped from the left; else, where
/// that leaves nothing, what remains when characters are.
pub open spec fn tail_of<F: Fn(&str) -> i32>(
    measure: F,
    text: Seq<char>,
    max_px: i32,
    shown: Seq<char>,
    clipped: bool,
) -> bool {
    &&& text.len() == 0 || max_px <= 0 ==> shown.len() == 0 && !clipped
    &&& text.len() > 0 && max_px > 0 ==> {
        ||| {
            &&& fits(measure, text, max_px)
            &&& shown == text
            &&& !clipped
        }
        ||| {
            &&& too_wide(measure, text, max_px)
            &&& clipped
            &&& exists|k: int| #[trigger]
                word_cut(measure, text, max_px, k) && shown == text.skip(k)
        }
        ||| {
            &&& too_wide(measure, text, max_px)
            &&& no_word_cut(measure, text, max_px)
            &&& exists|k: int| #[trigger]
                char_cut(measure, text, max_px, k) && shown == text.skip(k) && clipped == (k > 0)
        }
    }
}

/// The longest end of a text that fits, on a word boundary where possible, and
/// whether anything was dropped.
///
/// While someone keeps talking, the words that matter are the ones just said.
/// `measure` gives the width of a string in the units of `max_px`.
pub fn tail_that_fits<F: Fn(&str) -> i32>(text: &str, max_px: i32, measure: F) -> (out: (
    String,
    bool,
))
    requires
        forall|t: &str| #[trigger] measure.requires((t,)),
    ensures
        tail_of(measure, text@, max_px, out.0@, out.1),
{
    let all: Vec<char> = to_chars(text);
    let len: usize = all.len();
    let ghost s = text@;
    if len == 0 || max_px <= 0 {
        return (String::new(), false);
    }
    let whole: i32 = measure(text);
    if whole <= max_px {
        return (text.to_owned(), false);
    }
    assert(too_wide(measure, s, max_px));
    let mut best: Option<usize> = None;
    let ghost mut bound: int = len + 1;
    let mut i: usize = len;
    let mut stopped: bool = false;
    while i > 0 && !stopped
        invariant
            all@ == s,
            s.len() == len,
            len > 0,
            i <= len,
            forall|t: &str| #[trigger] measure.requires((t,)),
            match best {
                Some(k) => k == bound && word_start(s, bound),
                None => bound == len + 1,
            },
            forall|j: int| bound <= j && #[trigger] word_start(s, j) ==> fits(
                measure,
                s.skip(j),
                max_px,
            ),
            i < bound <= len + 1,
            !stopped ==> forall|j: int| i < j < bound ==> !#[trigger] word_start(s, j),
            stopped ==> last_too_wide(measure, s, max_px, bound),
        decreases i, !stopped as int,
    {
        i -= 1;
        if all[i] == ' ' {
            let from: usize = i + 1;
            let rest: String = from_chars(copy_range(all.as_slice(), from, len).as_slice());
            assert(s.subrange(from as int, len as int) =~= s.skip(from as int));
            let width: i32 = measure(rest.as_str());
            if width <= max_px {
                assert(fits(measure, s.skip(from as int), max_px));
                best = Some(from);
                proof {
                    bound = from as int;
                }
            } else {
                assert(too_wide(measure, s.skip(from as int), max_px));
                assert(word_start(s, from as int));
                stopped = true;
            }
        }
    }
    if let Some(k) = best {
        assert(word_cut(measure, s, max_px, k as int));
        let rest: String = from_chars(copy_range(all.as_slice(), k, len).as_slice());
        assert(s.subrange(k as int, len as int) =~= s.skip(k as int));
        return (rest, true);
    }
    assert(no_word_cut(measure, s, max_px));
    let mut start: usize = len;
    let mut over: bool = false;
    while start > 0 && !over
        invariant
            all@ == s,
            s.len() == len,
            start <= len,
            forall|t: &str| #[trigger] measure.requires((t,)),
            forall|j: int| start <= j < len ==> fits(measure, #[trigger] s.skip(j), max_px),
            over ==> start > 0 && too_wide(measure, s.skip(start - 1), max_px),
        decreases start, !over as int,
    {
        let rest: String = from_chars(copy_range(all.as_slice(), start - 1, len).as_slice());
        assert(s.subrange(start - 1, len as int) =~= s.skip(start - 1));
        let width: i32 = measure(rest.as_str());
        if width > max_px {
            assert(too_wide(measure, s.skip(start - 1), max_px));
            over = true;
        } else {
            assert(fits(measure, s.skip(start - 1), max_px));
            start -= 1;
        }
    }
    assert(char_cut(measure, s, max_px, start as int));
    let rest: String = from_chars(copy_range(all.as_slice(), start, len).as_slice());
    assert(s.subrange(start as int, len as int) =~= s.skip(start as int));
    (rest, start > 0)
}

// ---- fading into the background -------------------------------------------------

/// The column of the pixel that a byte belongs to, four bytes to a pixel.
pub open spec fn column(i: int, w: int) -> int {
    (i / 4) % w
}

/// The row of the pixel that a byte belongs to.
pub open spec fn row(i: int, w: int) -> int {
    (i / 4) / w
}

/// A byte is one of the three colour bytes of a pixel in the first `h` rows,
/// between two columns.
pub open spec fn banded(i: int, w: int, h: int, from: int, to: int) -> bool {
    &&& i % 4 < 3
    &&& from <= column(i, w) < to
    &&& row(i, w) < h
}

/// Where the band begins.
pub open spec fn band_from(x0: i32) -> int {
    if x0 > 0 {
        x0 as int
    } else {
        0
    }
}

/// Where the band ends.
pub open spec fn band_to(x1: i32, w: i32) -> int {
    if x1 < w {
        x1 as int
    } else {
        w as int
    }
}

/// Where the last pixel of the band begins in the buffer.
pub open spec fn band_last(w: i32, h: i32, x1: i32) -> int {
    ((h - 1) * w + band_to(x1, w) - 1) * 4
}

proof fn lemma_pixel(i: int, w: int, x: int, y: int)
    requires
        0 <= i,
        0 <= x < w,
        0 <= y,
    ensures
        (row(i, w) == y && column(i, w) == x) <==> (y * w + x) * 4 <= i < (y * w + x) * 4 + 4,
        0 <= column(i, w) < w,
        0 <= row(i, w),
{
    let p = i / 4;
    vstd::arithmetic::div_mod::lemma_fundamental_div_mod(p, w);
    vstd::arithmetic::div_mod::lemma_mod_pos_bound(p, w);
    vstd::arithmetic::div_mod::lemma_div_pos_is_pos(p, w);
    vstd::arithmetic::mul::lemma_mul_is_commutative(w, p / w);
    if p == y * w + x {
        vstd::arithmetic::div_mod::lemma_fundamental_div_mod_converse(p, w, y, x);
    }
}

proof fn lemma_pixel_in_reach(w: int, h: int, x: int, y: int, to: int)
    requires
        0 <= x < to <= w,
        0 <= y < h,
    ensures
        0 <= y * w,
        0 <= y * w + x <= (h - 1) * w + to - 1,
{
    assert(0 <= y * w <= (h - 1) * w) by (nonlinear_arith)
        requires
            0 <= y < h,
            0 < w,
    ;
}

/// Blends pixels toward the background across a horizontal band, so that the
/// left edge of a long sentence fades away rather than being chopped: `blend`
/// is given the background, the pixel, how far into the band it stands and how
/// wide the band is.
///
/// Works on any buffer with four bytes to a pixel; `bg` is in the order of the
/// first three bytes of a pixel.
pub fn fade_into_background<B: Fn(u8, u8, i32, i32) -> u8>(
    pixels: &mut [u8],
    w: i32,
    h: i32,
    x0: i32,
    x1: i32,
    bg: [u8; 3],
    blend: B,
)
    requires
        band_from(x0) < band_to(x1, w) && 0 < h ==> {
            &&& band_last(w, h, x1) <= i32::MAX
            &&& band_last(w, h, x1) + 2 < old(pixels)@.len()
        },
        forall|b: u8, p: u8, d: i32, span: i32|
            0 <= d < span ==> #[trigger] blend.requires((b, p, d, span)),
    ensures
        final(pixels)@.len() == old(pixels)@.len(),
        forall|i: int| #![trigger final(pixels)@[i]]
            0 <= i < old(pixels)@.len() ==> if banded(
                i,
                w as int,
                h as int,
                band_from(x0),
                band_to(x1, w),
            ) && band_from(x0) < band_to(x1, w) {
                blend.ensures(
                    (
                        bg@[i % 4],
                        old(pixels)@[i],
                        (column(i, w as int) - band_from(x0)) as i32,
                        (band_to(x1, w) - band_from(x0)) as i32,
                    ),
                    final(pixels)@[i],
                )
            } else {
                final(pixels)@[i] == old(pixels)@[i]
            },
{
    let from: i32 = if x0 > 0 {
        x0
    } else {
        0
    };
    let to: i32 = if x1 < w {
        x1
    } else {
        w
    };
    if to <= from {
        return;
    }
    let span: i32 = to - from;
    let ghost before = pixels@;
    let ghost wi = w as int;
    let mut y: i32 = 0;
    assert forall|i: int| 0 <= i < before.len() && y >= h implies !banded(
        i,
        wi,
        h as int,
        from as int,
        to as int,
    ) by {
        lemma_pixel(i, wi, 0, 0);
    }
    while y < h
        invariant
            0 <= from < to <= w,
            span == to - from,
            wi == w,
            0 <= y,
            y <= h || h < 0,
            before.len() == pixels@.len(),
            0 < h ==> ((h - 1) * w + to - 1) * 4 <= i32::MAX,
            0 < h ==> ((h - 1) * w + to - 1) * 4 + 2 < before.len(),
            forall|b: u8, p: u8, d: i32, span: i32|
                0 <= d < span ==> #[trigger] blend.requires((b, p, d, span)),
            forall|i: int| #![trigger pixels@[i]]
                0 <= i < before.len() ==> if banded(i, wi, h as int, from as int, to as int)
                    && row(i, wi) < y {
                    blend.ensures(
                        (bg@[i % 4], before[i], (column(i, wi) - from) as i32, span),
                        pixels@[i],
                    )
                } else {
                    pixels@[i] == before[i]
                },
        decreases if y < h {
            h - y
        } else {
            0
        },
    {
        let mut x: i32 = from;
        while x < to
            invariant
                0 <= from <= x <= to <= w,
                from < to,
                span == to - from,
                wi == w,
                0 <= y < h,
                before.len() == pixels@.len(),
                ((h - 1) * w + to - 1) * 4 <= i32::MAX,
                ((h - 1) * w + to - 1) * 4 + 2 < before.len(),
                forall|b: u8, p: u8, d: i32, span: i32|
                    0 <= d < span ==> #[trigger] blend.requires((b, p, d, span)),
                forall|i: int| #![trigger pixels@[i]]
                    0 <= i < before.len() ==> if banded(i, wi, h as int, from as int, to as int)
                        && (row(i, wi) < y || row(i, wi) == y && column(i, wi) < x) {
                        blend.ensures(
                            (bg@[i % 4], before[i], (column(i, wi) - from) as i32, span),
                            pixels@[i],
                        )
                    } else {
                        pixels@[i] == before[i]
                    },
            decreases to - x,
        {
            proof {
                lemma_pixel_in_reach(wi, h as int, x as int, y as int, to as int);
            }
            let at: usize = ((y * w + x) * 4) as usize;
            let d: i32 = x - from;
            let ghost held = pixels@;
            let b0: u8 = blend(bg[0], pixels[at], d, span);
            pixels[at] = b0;
            let b1: u8 = blend(bg[1], pixels[at + 1], d, span);
            pixels[at + 1] = b1;
            let b2: u8 = blend(bg[2], pixels[at + 2], d, span);
            pixels[at + 2] = b2;
            proof {
                assert forall|i: int| 0 <= i < before.len() implies if banded(
                    i,
                    wi,
                    h as int,
                    from as int,
                    to as int,
                ) && (row(i, wi) < y || row(i, wi) == y && column(i, wi) < x + 1) {
                    blend.ensures(
                        (bg@[i % 4], before[i], (column(i, wi) - from) as i32, span),
                        #[trigger] pixels@[i],
                    )
                } else {
                    pixels@[i] == before[i]
                } by {
                    lemma_pixel(i, wi, x as int, y as int);
                    let kept = held[i];
                }
            }
            x += 1;
        }
        proof {
            assert forall|i: int| 0 <= i < before.len() implies if banded(
                i,
                wi,
                h as int,
                from as int,
                to as int,
            ) && row(i, wi) < y + 1 {
                blend.ensures(
                    (bg@[i % 4], before[i], (column(i, wi) - from) as i32, span),
                    #[trigger] pixels@[i],
                )
            } else {
                pixels@[i] == before[i]
            } by {
                lemma_pixel(i, wi, 0, 0);
            }
        }
        y += 1;
    }
}

} // verus!
