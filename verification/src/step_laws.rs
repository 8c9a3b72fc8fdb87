//! What the small steps of the program give back when they are called: keys, keystrokes,
//! windows, menus and measurements.

use vstd::prelude::*;
use crate::asr::Line;
use crate::asr_service;
use crate::asr_service::{Event, EventView, Input, InputView, Phase, Worker};
use crate::bench;
use crate::bench::Feed;
use crate::chars;
use crate::control;
use crate::control::HotkeyEvent;
use crate::dictionary::Dictionary;
use crate::format::Formatter;
use crate::hotkey::{HookState, KeyCall};
use crate::inject;
use crate::inject::{Stroke, Typing, UnitStroke};
use crate::overlay_model::{OverlayModel, OverlayState, Tick};
use crate::platform::windows::overlay;
use crate::platform::windows::overlay::{Metrics, Overlay, Show};
use crate::reports;
use crate::reports::Heed;
use crate::session;
use crate::session::Desktop;
use crate::settings_ui;
use crate::settings_ui::{Measures, Press, SettingsWindow, Stand};
use crate::speech_laws;
use crate::trace::{Accumulated, Utterance};
use crate::tray;
use crate::tray::TrayCommand;
use crate::utf16;
use crate::wav;
use crate::wav::{Wav, WavError};
use crate::words;

verus! {

// ---- keys -----------------------------------------------------------------------------

/// A key that is pressed, repeats and comes up is one press and one release; what another
/// key does in between is not heard.
pub proof fn law_held_key_is_one_press(
    a: &mut HookState,
    b: &mut HookState,
    c: &mut HookState,
    d: &mut HookState,
    press: KeyCall,
    again: KeyCall,
    other: KeyCall,
    release: KeyCall,
    e1: Option<HotkeyEvent>,
    e2: Option<HotkeyEvent>,
    e3: Option<HotkeyEvent>,
    e4: Option<HotkeyEvent>,
)
    requires
        !old(a).held,
        press.code >= 0 && press.vk == old(a).key && press.message == 0x0100,
        again.code >= 0 && again.vk == old(a).key && again.message == 0x0100,
        other.vk != old(a).key,
        release.code >= 0 && release.vk == old(a).key && release.message == 0x0101,
        call_ensures(HookState::on_key, (a, press), e1),
        *old(b) == *final(a),
        call_ensures(HookState::on_key, (b, again), e2),
        *old(c) == *final(b),
        call_ensures(HookState::on_key, (c, other), e3),
        *old(d) == *final(c),
        call_ensures(HookState::on_key, (d, release), e4),
    ensures
        e1 == Some(HotkeyEvent::Down),
        e2 is None,
        e3 is None,
        e4 == Some(HotkeyEvent::Up),
        *final(d) == *old(a),
{
}

/// A key that is not known is Right Ctrl, and that is said.
pub proof fn law_unknown_key_falls_back(
    desktop: Desktop,
    key: &str,
    r: (u32, Option<String>),
    label: String,
)
    requires
        call_ensures(session::first_key, (desktop, key), r),
        call_ensures(session::first_hint, (key,), label),
    ensures
        session::code_on(desktop, key@) matches Some(c) ==> r.0 == c && r.1 is None && label@
            == control::label_of(key@),
        session::code_on(desktop, key@) is None ==> {
            &&& desktop == Desktop::Windows ==> r.0 == 0xA3
            &&& desktop == Desktop::Linux ==> r.0 == 97
            &&& r.1 is Some
            &&& label@ == "Ctrl"@
        },
{
}

/// Of the events that come from outside four are commands, and the others are keys.
pub proof fn law_outside_events_are_commands(e: HotkeyEvent, out: Option<TrayCommand>)
    requires
        call_ensures(session::on_control, (e,), out),
    ensures
        out == Some(TrayCommand::Toggle) <==> e == HotkeyEvent::Toggle,
        out == Some(TrayCommand::ReloadDictionary) <==> e == HotkeyEvent::Reload,
        out == Some(TrayCommand::LatencyReport) <==> e == HotkeyEvent::Report,
        out == Some(TrayCommand::Quit) <==> e == HotkeyEvent::Quit,
        out is None <==> e == HotkeyEvent::Down || e == HotkeyEvent::Up || e
            == HotkeyEvent::Cancel,
{
}

// ---- the recogniser -------------------------------------------------------------------

/// A worker that is handed what was heard while the key is down reports a partial with every
/// word of it, under the number of its utterance.
pub proof fn law_worker_says_what_it_heard(
    w: &mut Worker,
    input: Input,
    l: Seq<Line>,
    now: int,
    events: Vec<Event>,
)
    requires
        old(w)@.phase == Phase::Hearing,
        input@ == (InputView::Heard { lines: Ok(l), now }),
        speech_laws::heard(l).len() > 0,
        call_ensures(Worker::step, (w, input), events),
    ensures
        events@.len() == 1,
        events@[0]@ matches EventView::Partial { utterance, text } && utterance == old(w)@.number
            && words::words(text) == speech_laws::heard(l),
        final(w)@.last_partial == Some(now),
{
    speech_laws::law_partial_says_all_that_was_heard(old(w)@, Ok(l), now);
    let said = asr_service::event_views(events@);
    assert(said.len() == events@.len());
    assert(said[0] == events@[0]@);
}

/// At the end of an utterance it reports a final with every word, and hands the lines over.
pub proof fn law_worker_says_it_all_at_the_end(
    w: &mut Worker,
    input: Input,
    released: u64,
    waited: u64,
    from: u64,
    l: Seq<Line>,
    now: int,
    events: Vec<Event>,
)
    requires
        old(w)@.phase == (Phase::Finishing { released, waited, from }),
        released <= now,
        from <= now,
        input@ == (InputView::Heard { lines: Ok(l), now }),
        call_ensures(Worker::step, (w, input), events),
    ensures
        events@.len() == 1,
        events@[0]@ matches EventView::Final {
            utterance,
            text,
            lines,
            wait_for_inflight,
            drain,
            total,
        } && utterance == old(w)@.number && words::words(text) == speech_laws::heard(l) && lines
            == l && wait_for_inflight == waited && drain == now - from && total == now - released,
{
    speech_laws::law_final_says_all_that_was_heard(old(w)@, released, waited, from, l, now);
    let said = asr_service::event_views(events@);
    assert(said.len() == events@.len());
    assert(said[0] == events@[0]@);
}

// ---- keystrokes -----------------------------------------------------------------------

/// For a paste the keys that are held are let go, then the chord is sent, then they are
/// pressed again.
pub proof fn law_held_keys_are_put_back(held: &[u16], out: Vec<Stroke>, i: int)
    requires
        call_ensures(inject::paste_strokes, (held,), out),
        0 <= i < held@.len(),
    ensures
        ({
            let n = held@.len() as int;
            &&& out@.len() == 2 * n + 4
            &&& out@[i] == (Stroke { vk: held@[i], up: true })
            &&& out@[n] == (Stroke { vk: 0x11, up: false })
            &&& out@[n + 1] == (Stroke { vk: 0x56, up: false })
            &&& out@[n + 2] == (Stroke { vk: 0x56, up: true })
            &&& out@[n + 3] == (Stroke { vk: 0x11, up: true })
            &&& out@[n + 4 + i] == (Stroke { vk: held@[i], up: false })
        }),
{
}

/// A text is typed unit by unit: each goes down and comes up before the next, and nothing
/// has been sent at first.
pub proof fn law_text_is_typed_unit_by_unit(text: &str, t: Typing, i: int)
    requires
        call_ensures(Typing::new, (text,), t),
        0 <= i < utf16::encoded(text@).len(),
    ensures
        t.sent == 0,
        t.strokes@.len() == 2 * utf16::encoded(text@).len(),
        t.strokes@[2 * i] == (UnitStroke { unit: utf16::encoded(text@)[i], up: false }),
        t.strokes@[2 * i + 1] == (UnitStroke { unit: utf16::encoded(text@)[i], up: true }),
{
}

/// A batch that was sent whole is followed by the next, which begins where it ended; one that
/// was not is an error, and nothing counts as sent.
pub proof fn law_batches_follow_on(
    t: &mut Typing,
    now: Option<(usize, usize)>,
    count: usize,
    r: Result<(), String>,
    then: Option<(usize, usize)>,
)
    requires
        old(t).wf(),
        call_ensures(Typing::next_batch, (&*old(t),), now),
        call_ensures(Typing::batch_sent, (t, count), r),
        call_ensures(Typing::next_batch, (&*final(t),), then),
    ensures
        now matches Some((from, to)) ==> {
            &&& from < to
            &&& to - from <= 512
            &&& count == to - from ==> r is Ok && (then matches Some((next, _)) ==> next == to)
            &&& count == to - from && to == old(t).strokes@.len() ==> then is None
            &&& count != to - from ==> r is Err && then == now
        },
{
    assert(old(t).strokes.len() == old(t).strokes@.len());
}

/// What is put on the clipboard is read from it again, unless it holds a zero.
pub proof fn law_clipboard_gives_the_text_back(
    text: &str,
    units: Vec<u16>,
    held: &[u16],
    back: String,
)
    requires
        !text@.contains('\0'),
        call_ensures(inject::clipboard_units, (text,), units),
        held@ == units@,
        call_ensures(inject::clipboard_text, (held,), back),
    ensures
        back@ == text@,
{
    utf16::law_round_trip(text@);
    let u = utf16::encoded(text@);
    utf16::law_no_zero_inside(text@);
    crate::desktop_laws::law_clipboard_text_ends_at_a_zero(u, Seq::empty());
    assert(u.push(0) + Seq::<u16>::empty() =~= units@);
}

/// The clipboard is tried twenty times before it is given up.
pub proof fn law_clipboard_is_tried_again(opened: bool, tries: u32, o: inject::Opening)
    requires
        call_ensures(inject::after_try, (opened, tries), o),
    ensures
        o is Opened <==> opened,
        o is Again <==> !opened && tries < 20,
        o is Failed <==> !opened && tries >= 20,
{
}

// ---- the pill -------------------------------------------------------------------------

/// A state that is set holds, with its text; its time starts with it and not with a text
/// that follows; and the meter is cleared when the pill begins to listen.
pub proof fn law_state_of_the_pill_is_set(
    m: &mut OverlayModel,
    state: OverlayState,
    text: &str,
    now: u64,
    clear: bool,
    tick: Tick,
    later: u64,
)
    requires
        call_ensures(OverlayModel::set, (m, state, text, now), clear),
        call_ensures(OverlayModel::tick, (&*final(m), later), tick),
    ensures
        final(m).state == state,
        final(m).text@ == text@,
        state == old(m).state ==> final(m).shown_at == old(m).shown_at,
        state != old(m).state ==> final(m).shown_at == now,
        clear <==> state == OverlayState::Listening && old(m).state != OverlayState::Listening,
        state == OverlayState::Done && old(m).state != OverlayState::Done ==> (tick == Tick::Hide
            <==> later >= now + 1_000_000_000),
        state == OverlayState::Error && old(m).state != OverlayState::Error ==> (tick
            == Tick::Hide <==> later >= now + 3_000_000_000),
{
}

/// A confirmation goes by itself: a second after it was set the window is taken down, and
/// then there is nothing to look at any more.
pub proof fn law_confirmation_goes_by_itself(
    a: &mut Overlay,
    b: &mut Overlay,
    text: &str,
    now: u64,
    later: u64,
    r: (Show, bool),
    s: (Show, Option<u64>),
)
    requires
        old(a).has_window,
        old(a).model.state != OverlayState::Done,
        later >= now + 1_000_000_000,
        call_ensures(Overlay::set, (a, OverlayState::Done, text, now), r),
        *old(b) == *final(a),
        call_ensures(Overlay::tick, (b, later), s),
    ensures
        r.0 == Show::Paint || r.0 == Show::PaintAndShow,
        final(a).visible,
        s == (Show::Hide, None::<u64>),
        !final(b).visible,
        final(b).model.state == OverlayState::Hidden,
        final(b).model.text@.len() == 0,
{
}

/// The pill stands in the middle of the width and above the margin.
pub proof fn law_pill_stands_above_the_margin(
    m: &Metrics,
    left: i32,
    right: i32,
    bottom: i32,
    w: i32,
    h: i32,
    p: (i64, i64),
)
    requires
        left <= right,
        0 <= w <= right - left,
        call_ensures(overlay::position, (m, left, right, bottom, w, h), p),
    ensures
        left <= p.0,
        p.0 + w <= right,
        0 <= (right - (p.0 + w)) - (p.0 - left) <= 1,
        p.1 + h + m.bottom_margin == bottom,
{
}

// ---- menus and windows ----------------------------------------------------------------

/// Every command has its own number in the menu.
pub proof fn law_commands_are_numbered(c: TrayCommand)
    ensures
        tray::id_of(c) == (match c {
            TrayCommand::Toggle => 1usize,
            TrayCommand::LatencyReport => 2,
            TrayCommand::OpenSettings => 3,
            TrayCommand::ReloadDictionary => 4,
            TrayCommand::ToggleAutostart => 5,
            TrayCommand::Quit => 6,
        }),
{
}

/// That settings were written is told once; that they could not be is not taken for it.
pub proof fn law_saving_is_told_once(
    a: &mut SettingsWindow,
    b: &mut SettingsWindow,
    c: &mut SettingsWindow,
    outcome: Result<(), String>,
    e: Option<String>,
    first: bool,
    second: bool,
)
    requires
        !old(a).saved,
        call_ensures(SettingsWindow::written, (a, outcome), e),
        *old(b) == *final(a),
        call_ensures(SettingsWindow::take_saved, (b,), first),
        *old(c) == *final(b),
        call_ensures(SettingsWindow::take_saved, (c,), second),
    ensures
        first <==> outcome is Ok,
        !second,
        e is None <==> outcome is Ok,
        final(c).up == old(a).up,
{
}

/// The buttons of the settings window.
pub proof fn law_buttons_of_the_settings(parameter: usize, p: Press)
    requires
        call_ensures(settings_ui::press, (parameter,), p),
    ensures
        p == Press::SaveAndClose <==> parameter % 0x10000 == 212,
        p == Press::Close <==> parameter % 0x10000 == 213,
        p == Press::EditFile <==> parameter % 0x10000 == 214,
{
}

/// The rows of the settings window stand one below the other, the buttons below the last and
/// side by side, and the note below them; the window is tall enough for all of it.
pub proof fn law_rows_stand_one_below_the_other(m: &Measures, s: Stand, i: int)
    requires
        m.line >= 0,
        m.closed_list >= 0,
        m.area >= 0,
        m.row_gap >= 0,
        m.button_drop >= 0,
        m.button_height >= 0,
        m.button_width >= 0,
        m.button_gap >= 0,
        m.note_drop >= 0,
        m.note_height >= 0,
        m.foot >= 0,
        m.label_width >= 0,
        0 <= i < 11,
        call_ensures(settings_ui::place, (m,), s),
    ensures
        s.row_tops@.len() == 12,
        s.row_tops@[0] == m.top,
        s.row_tops@[i + 1] == s.row_tops@[i] + settings_ui::row_list(*m)[i].5 + m.row_gap,
        s.row_tops@[i] <= s.row_tops@[i + 1],
        s.row_tops@[11] <= s.buttons_top,
        s.button_lefts.0 + m.button_width <= s.button_lefts.1,
        s.button_lefts.1 + m.button_width <= s.button_lefts.2,
        s.buttons_top + m.button_height <= s.note_top,
        s.note_top + m.note_height <= s.client_height,
        s.label_left + m.label_width == s.control_left,
{
    assert(settings_ui::row_list(*m)[i].5 >= 0);
    assert(settings_ui::row_list(*m)[11].5 >= 0);
    assert(settings_ui::row_top(*m, i + 1) == settings_ui::row_top(*m, i) + settings_ui::row_list(
        *m,
    )[i].5 + m.row_gap);
    assert(settings_ui::row_top(*m, 12) == settings_ui::row_top(*m, 11) + settings_ui::row_list(
        *m,
    )[11].5 + m.row_gap);
    assert(s.row_tops@[i] == settings_ui::row_top(*m, i));
    assert(s.row_tops@[i + 1] == settings_ui::row_top(*m, i + 1));
    assert(s.row_tops@[0] == settings_ui::row_top(*m, 0));
    assert(s.row_tops@[11] == settings_ui::row_top(*m, 11));
}

// ---- measurements ---------------------------------------------------------------------

/// The holds that a recording is cut into lie in it one behind the other, each as long as was
/// asked for but for the last.
pub proof fn law_holds_lie_one_behind_the_other(
    asked: usize,
    audio: usize,
    hold: usize,
    count: usize,
    i: usize,
    r: (usize, usize),
    next: (usize, usize),
)
    requires
        hold > 0,
        call_ensures(bench::hold_count, (asked, audio, hold), count),
        i + 1 < count,
        call_ensures(bench::hold_range, (i, audio, hold, count), r),
        call_ensures(bench::hold_range, ((i + 1) as usize, audio, hold, count), next),
    ensures
        r.1 == next.0,
        r.1 - r.0 == hold,
        next.1 <= audio,
        count <= asked,
        i == 0 ==> r.0 == 0,
{
    let fit = audio as int / hold as int;
    assert(count <= fit);
    vstd::arithmetic::div_mod::lemma_fundamental_div_mod(audio as int, hold as int);
    assert((i + 1) * hold <= audio) by (nonlinear_arith)
        requires
            i + 1 < count,
            count <= fit,
            hold * fit <= audio,
            hold > 0,
    ;
    assert((i + 1) * hold == i * hold + hold) by (nonlinear_arith);
    assert(i == 0 ==> i * hold == 0) by (nonlinear_arith);
}

/// A hold is as long as was asked for and lies in the recording; at its end it starts over.
pub proof fn law_next_hold_lies_in_the_recording(
    cursor: usize,
    len: usize,
    audio: usize,
    r: Option<(usize, usize)>,
)
    requires
        call_ensures(bench::next_hold, (cursor, len, audio), r),
    ensures
        r is None <==> len > audio,
        r matches Some((from, to)) ==> to - from == len && to <= audio && (from == cursor || (from
            == 0 && cursor + len > audio)),
{
}

/// Chunks are fed at their own pace: each is due one chunk after the one before, however
/// late that one was.
pub proof fn law_chunks_keep_their_pace(
    a: &mut Feed,
    b: &mut Feed,
    first: u64,
    second: u64,
    wait: u128,
    more: u128,
)
    requires
        old(a).next_at + 2 * old(a).chunk_ns <= u128::MAX,
        call_ensures(Feed::next_chunk, (a, first), wait),
        *old(b) == *final(a),
        call_ensures(Feed::next_chunk, (b, second), more),
    ensures
        final(b).next_at == old(a).next_at + 2 * old(a).chunk_ns,
        first <= old(a).next_at + old(a).chunk_ns ==> first + wait == old(a).next_at
            + old(a).chunk_ns,
        first > old(a).next_at + old(a).chunk_ns ==> wait == 0,
        final(b).last_poll == old(a).last_poll,
{
}

/// A poll is due a cadence after the one before; the first words are timed once.
pub proof fn law_polls_keep_their_cadence(
    f: &mut Feed,
    words_came: bool,
    now: u64,
    later: u64,
    r: bool,
)
    requires
        now <= later,
        old(f).started <= now,
        call_ensures(Feed::polled, (f, words_came, now), ()),
        call_ensures(Feed::due, (&*final(f), later), r),
    ensures
        r <==> later - now >= old(f).cadence_ns,
        old(f).first_partial is Some ==> final(f).first_partial == old(f).first_partial,
        old(f).first_partial is None && !words_came ==> final(f).first_partial is None,
        old(f).first_partial is None && words_came ==> final(f).first_partial == Some(
            (now - old(f).started) as u64,
        ),
{
}

/// A dictation is counted in every span, and in that of the first partial where there was
/// one.
pub proof fn law_dictations_are_counted(a: &mut Accumulated, u: &Utterance)
    requires
        call_ensures(Accumulated::record, (a, u), ()),
    ensures
        final(a).perceived.values@.len() == old(a).perceived.values@.len() + 1,
        final(a).perceived.values@.last() == u.t12_inserted - u.t7_hotkey_up,
        final(a).finalisation.values@.last() == u.t9_final_ready - u.t7_hotkey_up,
        final(a).insertion.values@.last() == u.t12_inserted - u.t9_final_ready,
        final(a).activation.values@.last() == u.t1_first_packet - u.t0_hotkey_down,
        final(a).perceived.values@.last() == final(a).finalisation.values@.last()
            + final(a).insertion.values@.last(),
        u.t6_first_partial == 0 ==> final(a).first_partial.values@ == old(a).first_partial.values@,
        u.t6_first_partial != 0 ==> final(a).first_partial.values@.last() == u.t6_first_partial
            - u.t0_hotkey_down,
{
}

/// What is heeded of an event: words are shown after the release, or at once where they are
/// echoed; the end and errors count after the release.
pub proof fn law_events_are_heeded_after_the_release(
    e: &Event,
    released: bool,
    echo: bool,
    h: Heed,
)
    requires
        call_ensures(reports::heed, (e, released, echo), h),
    ensures
        !released && !echo ==> h is Nothing,
        released && e@ is Final ==> h is Done,
        !released && e@ is Final ==> h is Nothing,
        (released || echo) ==> (e@ matches EventView::Partial { utterance, text } ==> (
        h matches Heed::Say(s) && s@ == "  partial: "@ + text)),
        released ==> (e@ matches EventView::Error(why) ==> (h matches Heed::Complain(s) && s@
            == "asr: "@ + why)),
{
}

/// The report on a dictation shows what was heard, and beside it what a formatter without a
/// dictionary makes of it.
pub proof fn law_report_shows_what_became_of_the_text(
    none: &Dictionary,
    f: Formatter,
    text: &str,
    formatted: String,
    waited: &str,
    inflight: &str,
    drain: &str,
    out: Vec<String>,
)
    requires
        none@.len() == 0,
        call_ensures(Formatter::with_dictionary, (none,), f),
        call_ensures(Formatter::format, (&f, text), formatted),
        call_ensures(reports::dictation_report, (text, waited, inflight, drain), out),
    ensures
        out@.len() == 4,
        out@[2]@ == "raw:       "@ + text@,
        out@[3]@ == "formatted: "@ + formatted@,
{
    let low = crate::format::lowered(none@);
    assert(low =~= Seq::empty());
    assert(f.replacements() =~= Seq::empty());
    let lines = chars::texts(out@);
    assert(lines.len() == out@.len());
    assert(lines[2] == out@[2]@);
    assert(lines[3] == out@[3]@);
}

/// A level above five thousandths is sound.
pub proof fn law_levels_are_judged(peak_milli: u32, s: &'static str)
    requires
        call_ensures(reports::level_verdict, (peak_milli,), s),
    ensures
        peak_milli > 5 ==> s@ == "audio present"@,
        peak_milli <= 5 ==> s@ == "silence"@,
{
}

/// A plain file with samples of two bytes is read, and its frames are counted.
pub proof fn law_plain_files_are_read(
    b: &[u8],
    n: int,
    r: Result<Wav, WavError>,
)
    requires
        n >= 0,
        wav::plain_file(b@, n),
        call_ensures(Wav::read, (b,), r),
    ensures
        r matches Ok(w) && w.channels == b@[22] + 256 * b@[23] && w.sample_rate == b@[24] + 256
            * b@[25] + 65536 * b@[26] + 16777216 * b@[27] && wav::pcm_view(w.samples).1.len() == n,
{
    wav::law_plain_file_is_read(b@, n, r);
}

} // verus!
