//! What a session does when it is called, from the key that goes down to the text that is
//! aimed at a window.

use vstd::prelude::*;
use crate::inject::Mode;
use crate::overlay_model::OverlayState;
use crate::session;
use crate::session::{Aimed, Desktop, Effect, EffectView, Pending, Session};
use crate::settings::Settings;
use crate::settings;
use crate::target_app;
use crate::trace::Utterance;
use crate::tray::TrayCommand;
use crate::words;

verus! {

/// What was asked for, in its order.
pub open spec fn asked(out: Vec<Effect>, want: Seq<EffectView>) -> bool {
    &&& out@.len() == want.len()
    &&& forall|i: int| 0 <= i < want.len() ==> (#[trigger] out@[i])@ == want[i]
}

/// A key that goes down begins an utterance with the next number, unless dictation is paused
/// or one is under way; the microphone is opened where there is one, and that there is none
/// is shown where there is none.
pub proof fn law_key_down_begins_an_utterance(a: &mut Session, microphone: bool, out: Vec<Effect>)
    requires
        call_ensures(Session::start, (a, microphone), out),
    ensures
        !old(a).enabled || old(a).utterance is Some ==> out@.len() == 0 && *final(a) == *old(a),
        old(a).enabled && old(a).utterance is None ==> {
            &&& old(a).number < u64::MAX ==> final(a).number == old(a).number + 1
            &&& final(a).utterance is None
            &&& microphone ==> asked(
                out,
                seq![
                    EffectView::ResetCounters,
                    EffectView::BeginAsr(final(a).number),
                    EffectView::Arm,
                ],
            )
            &&& !microphone ==> asked(
                out,
                seq![
                    EffectView::ResetCounters,
                    EffectView::BeginAsr(final(a).number),
                    EffectView::Complain("no microphone"@),
                    EffectView::Overlay(OverlayState::Error, "no microphone"@),
                ],
            )
        },
{
    lemma_asked(out);
}

proof fn lemma_asked(out: Vec<Effect>)
    ensures
        asked(out, session::effect_views(out@)),
{
}

/// Once the microphone is open the pill listens, and the utterance is under way with the
/// times at which it was begun and armed.
pub proof fn law_armed_microphone_listens(
    a: &mut Session,
    begun: i64,
    now: i64,
    reset_us: u32,
    start_us: u32,
    out: Vec<Effect>,
)
    requires
        call_ensures(Session::armed, (a, begun, now, reset_us, start_us), out),
    ensures
        final(a).held,
        final(a).number == old(a).number,
        final(a).utterance matches Some(u) && u.t0_hotkey_down == begun && u.t0b_armed == now
            && u.reset_us == reset_us && u.start_us == start_us && u.t6_first_partial == 0
            && u.t7_hotkey_up == 0 && u.t9_final_ready == 0 && u.chars == 0,
        out@.len() == 1,
        out@[0]@ matches EffectView::Overlay(s, t) && s == OverlayState::Listening && t.len() == 0,
{
    lemma_asked(out);
    reveal_strlit("");
}

/// A key that comes up while an utterance is under way releases it, shows that it is being
/// finished and closes the microphone; without an utterance nothing is done.
pub proof fn law_key_up_releases_the_utterance(
    a: &mut Session,
    now: i64,
    first_packet: i64,
    peak_milli: u32,
    out: Vec<Effect>,
)
    requires
        call_ensures(Session::stop, (a, now, first_packet, peak_milli), out),
    ensures
        !final(a).held,
        final(a).number == old(a).number,
        old(a).utterance is None ==> out@.len() == 0 && final(a).utterance is None,
        old(a).utterance matches Some(u) ==> {
            &&& final(a).utterance == Some(
                Utterance {
                    t7_hotkey_up: now,
                    t1_first_packet: first_packet,
                    peak_milli,
                    ..u
                },
            )
            &&& out@.len() == 3
            &&& out@[0]@ == EffectView::ReleaseAsr
            &&& out@[1]@ matches EffectView::Overlay(s, t)
            &&& s == OverlayState::Finalising
            &&& t.len() == 0
            &&& out@[2]@ == EffectView::Disarm
        },
{
    lemma_asked(out);
    reveal_strlit("");
}

/// What is heard is shown while the key is held and it is of the utterance under way; of
/// another nothing is shown, and nothing after the release.
pub proof fn law_partial_is_shown_while_the_key_is_held(
    a: &mut Session,
    number: u64,
    text: &str,
    now: i64,
    out: Vec<Effect>,
)
    requires
        call_ensures(Session::on_partial, (a, number, text, now), out),
    ensures
        number == old(a).number && old(a).held ==> asked(
            out,
            seq![EffectView::Overlay(OverlayState::Listening, text@)],
        ),
        number != old(a).number || !old(a).held ==> out@.len() == 0,
        number != old(a).number ==> *final(a) == *old(a),
        final(a).held == old(a).held,
        final(a).number == old(a).number,
        number == old(a).number ==> (old(a).utterance matches Some(u) ==> (
        final(a).utterance matches Some(v) && v == (Utterance {
            t6_first_partial: if u.t6_first_partial == 0 {
                now
            } else {
                u.t6_first_partial
            },
            ..u
        }))),
{
    lemma_asked(out);
}

/// A dictation from end to end: what is recognised at the end of the utterance that the key
/// began comes out as the formatter makes it, once; with it come the times at which the key
/// went down and came up and at which the text was there. A final of another utterance
/// brings nothing.
pub proof fn law_dictation_from_key_to_text(
    a: &mut Session,
    b: &mut Session,
    c: &mut Session,
    d: &mut Session,
    begun: i64,
    armed: i64,
    released: i64,
    now: i64,
    packet: i64,
    peak: u32,
    reset_us: u32,
    start_us: u32,
    number: u64,
    text: &str,
    out_a: Vec<Effect>,
    out_b: Vec<Effect>,
    out_c: Vec<Effect>,
    pending: Option<Pending>,
)
    requires
        old(a).enabled,
        old(a).utterance is None,
        call_ensures(Session::start, (a, true), out_a),
        *old(b) == *final(a),
        call_ensures(Session::armed, (b, begun, armed, reset_us, start_us), out_b),
        *old(c) == *final(b),
        call_ensures(Session::stop, (c, released, packet, peak), out_c),
        *old(d) == *final(c),
        call_ensures(Session::on_final, (d, number, text, now), pending),
    ensures
        pending is Some <==> number == final(a).number,
        pending matches Some(p) ==> {
            &&& p.text@ == old(d).formatter.result(text@)
            &&& p.utterance.t0_hotkey_down == begun
            &&& p.utterance.t0b_armed == armed
            &&& p.utterance.t1_first_packet == packet
            &&& p.utterance.t7_hotkey_up == released
            &&& p.utterance.t9_final_ready == now
            &&& p.utterance.chars == p.text@.len()
            &&& p.utterance.peak_milli == peak
            &&& final(d).utterance is None
        },
        final(d).enabled,
        old(d).formatter == old(b).formatter,
{
}

/// What is aimed at a terminal goes the way that is set for terminals and has its line breaks
/// replaced; what is aimed elsewhere goes the other way and is as it was. The account says
/// which, and how long the text is.
pub proof fn law_text_is_aimed(a: &Session, p: Pending, exe: &str, r: Aimed)
    requires
        call_ensures(Session::aim, (a, p, exe), r),
    ensures
        session::terminal_on(a.desktop, exe@, a.insertion@) ==> r.text@ == target_app::stripped(
            p.text@,
            a.insertion@.terminal_newline_replacement,
        ) && r.mode == session::mode_on(a.desktop, a.insertion@.terminal_mode)
            && r.utterance.terminal,
        !session::terminal_on(a.desktop, exe@, a.insertion@) ==> r.text@ == p.text@ && r.mode
            == session::mode_on(a.desktop, a.insertion@.mode) && !r.utterance.terminal,
        r.utterance.chars == r.text@.len(),
        r.mode == Mode::Paste ==> r.utterance.insert_mode@ == "paste"@,
        r.mode == Mode::Type ==> r.utterance.insert_mode@ == "type"@,
        r.utterance.t7_hotkey_up == p.utterance.t7_hotkey_up,
        r.utterance.t9_final_ready == p.utterance.t9_final_ready,
{
}

/// A cancel drops the utterance, closes the microphone, throws away what was captured and
/// hides the pill; nothing of it comes out later.
pub proof fn law_cancel_drops_the_utterance(
    a: &mut Session,
    b: &mut Session,
    number: u64,
    text: &str,
    now: i64,
    out: Vec<Effect>,
    pending: Option<Pending>,
)
    requires
        call_ensures(Session::cancel, (a,), out),
        *old(b) == *final(a),
        call_ensures(Session::on_final, (b, number, text, now), pending),
    ensures
        pending is None,
        !final(a).held,
        final(a).enabled == old(a).enabled,
        out@.len() == 4,
        out@[0]@ == EffectView::Disarm,
        out@[1]@ == EffectView::CancelAsr,
        out@[2]@ == EffectView::ClearSink,
        out@[3]@ matches EffectView::Overlay(s, t) && s == OverlayState::Hidden && t.len() == 0,
{
    lemma_asked(out);
    reveal_strlit("");
}

/// A pause drops what is under way and keeps keys from beginning anything; a second toggle
/// lets them again, and changes nothing else.
pub proof fn law_pause_keeps_keys_from_beginning(
    a: &mut Session,
    b: &mut Session,
    c: &mut Session,
    microphone: bool,
    out_a: Vec<Effect>,
    out_b: Vec<Effect>,
    out_c: Vec<Effect>,
)
    requires
        old(a).enabled,
        call_ensures(Session::toggle, (a,), out_a),
        *old(b) == *final(a),
        call_ensures(Session::start, (b, microphone), out_b),
        *old(c) == *final(b),
        call_ensures(Session::toggle, (c,), out_c),
    ensures
        !final(a).enabled,
        final(a).utterance is None,
        out_b@.len() == 0,
        final(c).enabled,
        final(c).utterance is None,
        !final(c).held,
        final(c).number == old(a).number,
{
    lemma_asked(out_b);
}

/// Every command of the tray asks for its own thing.
pub proof fn law_tray_commands_ask_for_their_thing(
    a: &mut Session,
    c: TrayCommand,
    out: Vec<Effect>,
)
    requires
        call_ensures(Session::on_tray, (a, c), out),
    ensures
        c == TrayCommand::LatencyReport ==> asked(out, seq![EffectView::Report]),
        c == TrayCommand::OpenSettings ==> asked(out, seq![EffectView::OpenSettings]),
        c == TrayCommand::ReloadDictionary ==> asked(out, seq![EffectView::ReloadSettings]),
        c == TrayCommand::ToggleAutostart ==> asked(out, seq![EffectView::FlipAutostart]),
        c == TrayCommand::Quit ==> asked(out, seq![EffectView::Quit]),
        c != TrayCommand::Toggle ==> *final(a) == *old(a),
        c == TrayCommand::Toggle ==> final(a).enabled == !old(a).enabled,
{
    lemma_asked(out);
}

/// Settings that are read anew hold from then on: how text goes in, what is made of it, the
/// terms and the key; the recogniser is set anew, or loaded anew where another is asked for.
/// The dictation under way goes on.
pub proof fn law_settings_hold_once_applied(a: &mut Session, s: &Settings, out: Vec<Effect>)
    requires
        call_ensures(Session::apply, (a, s), out),
    ensures
        final(a).insertion@ == s@.insertion,
        forall|raw: Seq<char>| #[trigger]
            final(a).formatter.result(raw) == session::result_for(s@, raw),
        final(a).utterance == old(a).utterance,
        final(a).number == old(a).number,
        final(a).enabled == old(a).enabled,
        final(a).held == old(a).held,
        out@.len() >= 2,
        out@[0]@ == EffectView::SetKeyterms(session::terms_for(s@)),
        out@[out@.len() - 1]@ == if session::model_changed(*old(a), s@) {
            EffectView::ReloadModel
        } else {
            EffectView::SetConfig(settings::knobs(s@.model))
        },
        session::code_on(old(a).desktop, s@.key) matches Some(k) ==> out@.len() == 4 && out@[1]@
            == EffectView::Rebind(k),
{
    lemma_asked(out);
}

/// A new session follows its settings, is not paused and has nothing under way.
pub proof fn law_new_session_is_ready(desktop: Desktop, s: &Settings, a: Session)
    requires
        call_ensures(Session::new, (desktop, s), a),
    ensures
        a.enabled,
        !a.held,
        a.utterance is None,
        a.desktop == desktop,
        a.insertion@ == s@.insertion,
        !session::model_changed(a, s@),
        forall|raw: Seq<char>| #[trigger]
            a.formatter.result(raw) == session::result_for(s@, raw),
{
}

/// An error of the recogniser is logged and shown.
pub proof fn law_errors_are_shown(a: &Session, error: &str, out: Vec<Effect>)
    requires
        call_ensures(Session::on_error, (a, error), out),
    ensures
        asked(
            out,
            seq![
                EffectView::Complain("asr: "@ + error@),
                EffectView::Overlay(OverlayState::Error, error@),
            ],
        ),
{
    lemma_asked(out);
}

/// An insertion that worked is confirmed with the words, and one that failed is complained
/// of with the reason.
pub proof fn law_insertion_is_confirmed_or_complained_of(
    text: &str,
    failed: Option<String>,
    waited: &str,
    echo: bool,
    out: Vec<Effect>,
)
    requires
        call_ensures(session::inserted, (text, failed, waited, echo), out),
    ensures
        failed is None ==> out@.len() == 2 && out@[0]@ == EffectView::Overlay(
            OverlayState::Done,
            words::trim(text@),
        ) && out@[1]@ is Say,
        failed matches Some(e) ==> asked(
            out,
            seq![
                EffectView::Complain("insertion failed: "@ + e@),
                EffectView::Overlay(OverlayState::Error, e@),
            ],
        ),
{
    lemma_asked(out);
}

/// Settings are read anew when they were saved here or when the file has another stamp, and
/// not again for the same stamp.
pub proof fn law_settings_are_read_once_per_change(
    seen: &mut Option<u64>,
    again: &mut Option<u64>,
    stamp: Option<u64>,
    saved: bool,
    first: bool,
    second: bool,
)
    requires
        call_ensures(session::settings_changed, (seen, stamp, saved), first),
        *old(again) == *final(seen),
        call_ensures(session::settings_changed, (again, stamp, false), second),
    ensures
        first <==> saved || *old(seen) != stamp,
        !second,
{
}

} // verus!
