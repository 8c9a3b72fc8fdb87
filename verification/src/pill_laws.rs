//! What is to be seen of a dictation: what stands in the pill, in which colours, and how
//! much of it.

use vstd::prelude::*;
use crate::overlay_model;
use crate::overlay_model::{OverlayState, Tick};
use crate::words;

verus! {

/// The pill says what there is to say, without the white space round it; where there is
/// nothing it says what it waits for.
pub proof fn law_words_of_the_pill(state: OverlayState, text: Seq<char>)
    ensures
        words::trim(text).len() > 0 ==> overlay_model::caption(state, text) == words::trim(text),
        words::trim(text).len() == 0 ==> {
            &&& overlay_model::caption(OverlayState::Listening, text) == "Listening"@
            &&& overlay_model::caption(OverlayState::Finalising, text) == "Transcribing"@
            &&& overlay_model::caption(OverlayState::Error, text) == "Nothing heard"@
            &&& overlay_model::caption(OverlayState::Done, text).len() == 0
            &&& overlay_model::caption(OverlayState::Hidden, text).len() == 0
        },
{
}

/// The dot is green when the text is in, red when something went wrong and orange otherwise;
/// words are a little dimmer while they may still change, and dimmer yet in an error.
pub proof fn law_colours_of_the_pill(state: OverlayState, text: Seq<char>)
    ensures
        overlay_model::accent_of(state) == if state == OverlayState::Done {
            seq![0x57u8, 0xC4, 0x6A]
        } else if state == OverlayState::Error {
            seq![0xE5u8, 0x48, 0x4D]
        } else {
            seq![0xF0u8, 0x60, 0x3C]
        },
        overlay_model::text_colour_of(state, text) == if state == OverlayState::Error {
            seq![0x8Eu8, 0x8E, 0x8E]
        } else if state == OverlayState::Listening && words::trim(text).len() > 0 {
            seq![0xD6u8, 0xD6, 0xD6]
        } else {
            seq![0xF2u8, 0xF2, 0xF2]
        },
{
    assert(overlay_model::COL_DONE@ =~= seq![0x57u8, 0xC4, 0x6A]);
    assert(overlay_model::COL_ERROR@ =~= seq![0xE5u8, 0x48, 0x4D]);
    assert(overlay_model::COL_ACCENT@ =~= seq![0xF0u8, 0x60, 0x3C]);
    assert(overlay_model::COL_HINT@ =~= seq![0x8Eu8, 0x8E, 0x8E]);
    assert(overlay_model::COL_TEXT_LIVE@ =~= seq![0xD6u8, 0xD6, 0xD6]);
    assert(overlay_model::COL_TEXT@ =~= seq![0xF2u8, 0xF2, 0xF2]);
}

/// A live pill is drawn anew twenty-five times a second; one that confirms or complains is
/// looked at again until its second, or its three, are over.
pub proof fn law_pill_is_looked_at_in_time(shown_at: u64, now: u64)
    ensures
        overlay_model::tick_of(OverlayState::Listening, shown_at, now) == Tick::Redraw(40),
        overlay_model::tick_of(OverlayState::Finalising, shown_at, now) == Tick::Redraw(40),
        now < shown_at + 1_000_000_000 ==> overlay_model::tick_of(OverlayState::Done, shown_at, now)
            == Tick::Wait(120),
        now < shown_at + 3_000_000_000 ==> overlay_model::tick_of(
            OverlayState::Error,
            shown_at,
            now,
        ) == Tick::Wait(200),
{
}

/// What is shown of a text is its end, all of it unless something was dropped; it was
/// measured and is not too wide, and something is dropped only where the whole is.
pub proof fn law_end_of_the_text_is_shown<F: Fn(&str) -> i32>(
    measure: F,
    text: Seq<char>,
    max_px: i32,
    shown: Seq<char>,
    clipped: bool,
)
    requires
        text.len() > 0,
        max_px > 0,
        overlay_model::tail_of(measure, text, max_px, shown, clipped),
    ensures
        shown.len() <= text.len(),
        shown == text.skip(text.len() - shown.len()),
        clipped <==> shown.len() < text.len(),
        shown.len() > 0 && clipped ==> exists|t: &str, n: i32|
            t@ == shown && #[trigger] measure.ensures((t,), n) && n <= max_px,
        !clipped ==> shown == text,
        clipped ==> exists|t: &str, n: i32|
            t@ == text && #[trigger] measure.ensures((t,), n) && n > max_px,
{
    if overlay_model::fits(measure, text, max_px) && shown == text && !clipped {
        assert(text.skip(0) =~= text);
    } else if overlay_model::too_wide(measure, text, max_px) && clipped && exists|k: int| #[trigger]
        overlay_model::word_cut(measure, text, max_px, k) && shown == text.skip(k) {
        let k = choose|k: int| #[trigger]
            overlay_model::word_cut(measure, text, max_px, k) && shown == text.skip(k);
        assert(overlay_model::word_start(text, k));
        assert(overlay_model::fits(measure, text.skip(k), max_px));
        assert(text.len() - shown.len() == k);
    } else {
        let k = choose|k: int| #[trigger]
            overlay_model::char_cut(measure, text, max_px, k) && shown == text.skip(k) && clipped
                == (k > 0);
        assert(text.len() - shown.len() == k);
        if k < text.len() {
            assert(overlay_model::fits(measure, text.skip(k), max_px));
        }
        if k == 0 {
            assert(text.skip(0) =~= text);
        }
    }
}

/// Where words can be dropped whole they are: what is shown then begins a word, and with
/// the word before it would be too wide. The measure finds a text as wide each time.
pub proof fn law_words_are_dropped_whole<F: Fn(&str) -> i32>(
    measure: F,
    text: Seq<char>,
    max_px: i32,
    shown: Seq<char>,
    before: Seq<char>,
    word: Seq<char>,
)
    requires
        max_px > 0,
        shown.len() > 0,
        text == before.push(' ') + word.push(' ') + shown,
        !word.contains(' '),
        !shown.contains(' '),
        forall|t: &str, u: &str, n: i32, m: i32|
            #![trigger measure.ensures((t,), n), measure.ensures((u,), m)]
            t@ == u@ && measure.ensures((t,), n) && measure.ensures((u,), m) ==> n == m,
        overlay_model::tail_of(measure, text, max_px, shown, true),
    ensures
        exists|t: &str, n: i32|
            t@ == word.push(' ') + shown && #[trigger] measure.ensures((t,), n) && n > max_px,
{
    let at = before.len() + 1;
    let last = at + word.len() + 1;
    let more = word.push(' ') + shown;
    assert(text.skip(at as int) =~= more);
    assert(text[at - 1] == ' ');
    assert(text[last - 1] == ' ');
    assert(overlay_model::word_start(text, at as int));
    assert(overlay_model::word_start(text, last as int));
    assert forall|j: int| at < j && #[trigger] overlay_model::word_start(text, j) implies j
        == last by {
        if j < last {
            assert(text[j - 1] == word[j - 1 - at]);
            assert(word.contains(word[j - 1 - at]));
        } else if j > last {
            assert(text[j - 1] == shown[j - 1 - last]);
            assert(shown.contains(shown[j - 1 - last]));
        }
    }
    if exists|k: int| #[trigger]
        overlay_model::word_cut(measure, text, max_px, k) && shown == text.skip(k) {
        let k = choose|k: int| #[trigger]
            overlay_model::word_cut(measure, text, max_px, k) && shown == text.skip(k);
        assert(overlay_model::word_start(text, k));
        assert(k == last);
        assert(!(k <= at));
        assert(overlay_model::last_too_wide(measure, text, max_px, k));
        let p = choose|p: int|
            {
                &&& p < k
                &&& #[trigger] overlay_model::word_start(text, p)
                &&& overlay_model::too_wide(measure, text.skip(p), max_px)
                &&& forall|j: int| p < j < k ==> !#[trigger] overlay_model::word_start(text, j)
            };
        assert(p == at);
    } else {
        let k = choose|k: int| #[trigger]
            overlay_model::char_cut(measure, text, max_px, k) && shown == text.skip(k) && true == (k
                > 0);
        assert(k == last);
        assert(overlay_model::fits(measure, text.skip(last as int), max_px));
        assert(overlay_model::no_word_cut(measure, text, max_px));
        assert(overlay_model::last_too_wide(measure, text, max_px, text.len() as int + 1));
        let p = choose|p: int|
            {
                &&& p < text.len() + 1
                &&& #[trigger] overlay_model::word_start(text, p)
                &&& overlay_model::too_wide(measure, text.skip(p), max_px)
                &&& forall|j: int|
                    p < j < text.len() + 1 ==> !#[trigger] overlay_model::word_start(text, j)
            };
        assert(p == last);
    }
}

} // verus!
