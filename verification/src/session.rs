//! The app between its parts: the hold key, the recogniser, the pill and the
//! window that receives the text. Each thing that happens is answered with what
//! is to be done, in order.

use vstd::prelude::*;
use crate::asr;
use crate::asr_service::Config;
use crate::chars;
use crate::chars::{from_chars, push_str, to_chars};
use crate::control::{hold_key, hotkey_label, HotkeyEvent};
use crate::format::Formatter;
use crate::inject;
use crate::inject::Mode;
use crate::number;
use crate::number::push_decimal;
use crate::overlay_model::OverlayState;
use crate::platform::linux;
use crate::platform::windows;
use crate::settings;
use crate::settings::{Insertion, InsertionView, Settings, SettingsView};
use crate::target_app;
use crate::target_app::strip_newlines;
use crate::trace;
use crate::trace::Utterance;
use crate::tray::TrayCommand;
use crate::words;
use crate::words::{trim_chars, Class};

verus! {

/// The desktop that the app runs on.
#[derive(Clone, Copy, PartialEq, Eq, Debug, Structural)]
pub enum Desktop {
    Windows,
    Linux,
}

/// Something to be done.
pub enum Effect {
    /// Forget the first packet and the levels of the last utterance.
    ResetCounters,
    /// Begin the utterance with this number.
    BeginAsr(u64),
    ReleaseAsr,
    /// Drop the utterance under way.
    CancelAsr,
    Arm,
    Disarm,
    /// Drop what was captured and not consumed.
    ClearSink,
    Overlay(OverlayState, String),
    /// Something to complain of.
    Complain(String),
    /// Something to say.
    Say(String),
    SetPaused(bool),
    SetKeyterms(String),
    SetConfig(Config),
    /// Watch the key with this code.
    Rebind(u32),
    /// Write this on the key cap of the pill.
    Remind(String),
    ReloadModel,
    ReloadSettings,
    OpenSettings,
    FlipAutostart,
    Report,
    Quit,
}

pub enum EffectView {
    ResetCounters,
    BeginAsr(u64),
    ReleaseAsr,
    CancelAsr,
    Arm,
    Disarm,
    ClearSink,
    Overlay(OverlayState, Seq<char>),
    Complain(Seq<char>),
    Say(Seq<char>),
    SetPaused(bool),
    SetKeyterms(Seq<char>),
    SetConfig(Config),
    Rebind(u32),
    Remind(Seq<char>),
    ReloadModel,
    ReloadSettings,
    OpenSettings,
    FlipAutostart,
    Report,
    Quit,
}

impl View for Effect {
    type V = EffectView;

    open spec fn view(&self) -> EffectView {
        match *self {
            Effect::ResetCounters => EffectView::ResetCounters,
            Effect::BeginAsr(n) => EffectView::BeginAsr(n),
            Effect::ReleaseAsr => EffectView::ReleaseAsr,
            Effect::CancelAsr => EffectView::CancelAsr,
            Effect::Arm => EffectView::Arm,
            Effect::Disarm => EffectView::Disarm,
            Effect::ClearSink => EffectView::ClearSink,
            Effect::Overlay(s, t) => EffectView::Overlay(s, t@),
            Effect::Complain(t) => EffectView::Complain(t@),
            Effect::Say(t) => EffectView::Say(t@),
            Effect::SetPaused(b) => EffectView::SetPaused(b),
            Effect::SetKeyterms(t) => EffectView::SetKeyterms(t@),
            Effect::SetConfig(c) => EffectView::SetConfig(c),
            Effect::Rebind(k) => EffectView::Rebind(k),
            Effect::Remind(t) => EffectView::Remind(t@),
            Effect::ReloadModel => EffectView::ReloadModel,
            Effect::ReloadSettings => EffectView::ReloadSettings,
            Effect::OpenSettings => EffectView::OpenSettings,
            Effect::FlipAutostart => EffectView::FlipAutostart,
            Effect::Report => EffectView::Report,
            Effect::Quit => EffectView::Quit,
        }
    }
}

/// The views of a list of effects.
pub open spec fn effect_views(v: Seq<Effect>) -> Seq<EffectView> {
    v.map_values(|e: Effect| e@)
}

/// Appends an effect.
fn add_effect(out: &mut Vec<Effect>, e: Effect)
    ensures
        effect_views(final(out)@) == effect_views(old(out)@).push(e@),
{
    out.push(e);
    assert(effect_views(out@) =~= effect_views(old(out)@).push(e@));
}

fn no_effects() -> (out: Vec<Effect>)
    ensures
        effect_views(out@) == Seq::<EffectView>::empty(),
{
    let out: Vec<Effect> = Vec::new();
    assert(effect_views(out@) =~= seq![]);
    out
}

// ---- state ------------------------------------------------------------------------

/// What the app remembers.
pub struct Session {
    pub desktop: Desktop,
    pub enabled: bool,
    /// The dictation that is under way.
    pub utterance: Option<Utterance>,
    /// The number of the utterance that was begun last.
    pub number: u64,
    /// Whether the key of that dictation is still down.
    pub held: bool,
    pub insertion: Insertion,
    pub formatter: Formatter,
    /// What is loaded, so that a save pays for a reload only when the model
    /// changed.
    pub loaded_profile: String,
    pub loaded_dir: String,
    pub loaded_single_thread: bool,
    pub loaded_boost: String,
}

/// The number of the utterance that is begun next.
pub open spec fn number_after(n: u64) -> u64 {
    if n == u64::MAX {
        0
    } else {
        (n + 1) as u64
    }
}

/// The terms that the recogniser is biased towards.
pub open spec fn terms_of(f: Formatter) -> Seq<char> {
    words::joined(f.replacements().map_values(|e: (Seq<char>, Seq<char>)| e.1), ","@)
}

/// A formatter follows settings.
pub open spec fn follows(f: Formatter, s: SettingsView) -> bool {
    &&& f.capitalise_sentences == s.formatting.capitalise_sentences
    &&& f.spoken_punctuation == s.formatting.spoken_punctuation
    &&& f.trailing_space == s.formatting.trailing_space
    &&& f.replacements() == crate::format::longest_first(crate::format::lowered(s.dictionary))
}

/// What a text becomes under settings.
pub open spec fn result_for(s: SettingsView, raw: Seq<char>) -> Seq<char> {
    crate::format::formatted(
        raw,
        crate::format::longest_first(crate::format::lowered(s.dictionary)),
        s.formatting.capitalise_sentences,
        s.formatting.spoken_punctuation,
        s.formatting.trailing_space,
    )
}

/// The terms that the recogniser is biased towards under settings.
pub open spec fn terms_for(s: SettingsView) -> Seq<char> {
    words::joined(
        crate::format::longest_first(crate::format::lowered(s.dictionary)).map_values(
            |e: (Seq<char>, Seq<char>)| e.1,
        ),
        ","@,
    )
}

/// A formatter that follows settings.
pub fn formatter_for(s: &Settings) -> (f: Formatter)
    ensures
        follows(f, s@),
{
    let mut f: Formatter = Formatter::with_dictionary(&s.dictionary);
    f.capitalise_sentences = s.formatting.capitalise_sentences;
    f.spoken_punctuation = s.formatting.spoken_punctuation;
    f.trailing_space = s.formatting.trailing_space;
    f
}

// ---- the dictation under way ---------------------------------------------------------

/// An utterance that has just been armed.
pub open spec fn armed_as(
    u: Utterance,
    begun: i64,
    now: i64,
    reset_us: u32,
    start_us: u32,
) -> bool {
    &&& trace::fresh((Utterance { t0b_armed: 0, reset_us: 0, start_us: 0, ..u }), begun)
    &&& u.t0b_armed == now
    &&& u.reset_us == reset_us
    &&& u.start_us == start_us
}

/// The utterance once a hypothesis has come: the first is timed.
pub open spec fn heard(u: Option<Utterance>, now: i64) -> Option<Utterance> {
    match u {
        Some(u) => if u.t6_first_partial == 0 {
            Some(Utterance { t6_first_partial: now, ..u })
        } else {
            Some(u)
        },
        None => None,
    }
}

/// The utterance once the key is up.
pub open spec fn let_go(
    u: Option<Utterance>,
    now: i64,
    first_packet: i64,
    peak_milli: u32,
) -> Option<Utterance> {
    match u {
        Some(u) => Some(
            Utterance { t7_hotkey_up: now, t1_first_packet: first_packet, peak_milli, ..u },
        ),
        None => None,
    }
}

/// The utterance under way, where it is the one with this number.
pub open spec fn heeded(u: Option<Utterance>, current: u64, number: u64) -> Option<Utterance> {
    if number == current {
        u
    } else {
        None
    }
}

/// What a final transcript makes of the utterance: its text and its trace, or nothing
/// where there is no utterance.
pub open spec fn finished(u: Option<Utterance>, text: Seq<char>, now: i64) -> Option<
    (Seq<char>, Utterance),
> {
    match u {
        Some(u) => Some(
            (text, Utterance { t9_final_ready: now, chars: text.len() as usize, ..u }),
        ),
        None => None,
    }
}

/// A dictation whose text is ready, as its text and its trace.
pub open spec fn pending_view(p: Option<Pending>) -> Option<(Seq<char>, Utterance)> {
    match p {
        Some(p) => Some((p.text@, p.utterance)),
        None => None,
    }
}

impl Session {
    /// The app as it comes up with settings.
    pub fn new(desktop: Desktop, s: &Settings) -> (a: Session)
        ensures
            a.desktop == desktop,
            a.enabled,
            a.utterance is None,
            a.number == 0,
            !a.held,
            a.insertion@ == s@.insertion,
            follows(a.formatter, s@),
            !model_changed(a, s@),
    {
        Session {
            desktop,
            enabled: true,
            utterance: None,
            number: 0,
            held: false,
            insertion: s.insertion.copied(),
            formatter: formatter_for(s),
            loaded_profile: s.model.profile.clone(),
            loaded_dir: s.model.dir.clone(),
            loaded_single_thread: s.model.single_thread,
            loaded_boost: s.model.keyterm_boost.clone(),
        }
    }

    /// Everything but the dictation under way and whether dictation is paused is
    /// as it was.
    pub open spec fn same_setup(self, other: Session) -> bool {
        &&& self.desktop == other.desktop
        &&& self.insertion == other.insertion
        &&& self.formatter == other.formatter
        &&& self.same_model(other)
    }

    /// The model that is loaded is the same.
    pub open spec fn same_model(self, other: Session) -> bool {
        &&& self.loaded_profile == other.loaded_profile
        &&& self.loaded_dir == other.loaded_dir
        &&& self.loaded_single_thread == other.loaded_single_thread
        &&& self.loaded_boost == other.loaded_boost
    }

    /// The dictation under way is the same, and so is whether dictation is paused.
    pub open spec fn same_dictation(self, other: Session) -> bool {
        &&& self.desktop == other.desktop
        &&& self.enabled == other.enabled
        &&& self.utterance == other.utterance
        &&& self.number == other.number
        &&& self.held == other.held
    }

    // ---- the hold key ---------------------------------------------------------

    /// The key went down. Nothing is begun while dictation is paused or an
    /// utterance is under way. The microphone comes first and the screen second:
    /// every millisecond before it is armed is speech that is lost. Each utterance
    /// that is begun has a number of its own.
    pub fn start(&mut self, has_microphone: bool) -> (out: Vec<Effect>)
        ensures
            *final(self) == (Session { number: final(self).number, ..*old(self) }),
            final(self).number == (if !old(self).enabled || old(self).utterance is Some {
                old(self).number
            } else {
                number_after(old(self).number)
            }),
            effect_views(out@) == (if !old(self).enabled || old(self).utterance is Some {
                Seq::<EffectView>::empty()
            } else if has_microphone {
                seq![
                    EffectView::ResetCounters,
                    EffectView::BeginAsr(final(self).number),
                    EffectView::Arm,
                ]
            } else {
                seq![
                    EffectView::ResetCounters,
                    EffectView::BeginAsr(final(self).number),
                    EffectView::Complain("no microphone"@),
                    EffectView::Overlay(OverlayState::Error, "no microphone"@),
                ]
            }),
    {
        let mut out: Vec<Effect> = no_effects();
        if !self.enabled || self.utterance.is_some() {
            return out;
        }
        self.number = if self.number == u64::MAX {
            0
        } else {
            self.number + 1
        };
        add_effect(&mut out, Effect::ResetCounters);
        add_effect(&mut out, Effect::BeginAsr(self.number));
        if has_microphone {
            add_effect(&mut out, Effect::Arm);
            assert(effect_views(out@) =~= seq![
                EffectView::ResetCounters,
                EffectView::BeginAsr(self.number),
                EffectView::Arm,
            ]);
        } else {
            add_effect(&mut out, Effect::Complain("no microphone".to_owned()));
            add_effect(
                &mut out,
                Effect::Overlay(OverlayState::Error, "no microphone".to_owned()),
            );
            assert(effect_views(out@) =~= seq![
                EffectView::ResetCounters,
                EffectView::BeginAsr(self.number),
                EffectView::Complain("no microphone"@),
                EffectView::Overlay(OverlayState::Error, "no microphone"@),
            ]);
        }
        out
    }

    /// The microphone is armed: the utterance that began with the key is under
    /// way.
    pub fn armed(&mut self, begun: i64, now: i64, reset_us: u32, start_us: u32) -> (out: Vec<
        Effect,
    >)
        ensures
            final(self).same_setup(*old(self)),
            final(self).enabled == old(self).enabled,
            final(self).number == old(self).number,
            final(self).held,
            final(self).utterance matches Some(u) && armed_as(u, begun, now, reset_us, start_us),
            effect_views(out@) == seq![EffectView::Overlay(OverlayState::Listening, ""@)],
    {
        let mut u: Utterance = Utterance::begin(begun);
        u.t0b_armed = now;
        u.reset_us = reset_us;
        u.start_us = start_us;
        self.utterance = Some(u);
        self.held = true;
        let mut out: Vec<Effect> = no_effects();
        add_effect(&mut out, Effect::Overlay(OverlayState::Listening, "".to_owned()));
        assert(effect_views(out@) =~= seq![EffectView::Overlay(OverlayState::Listening, ""@)]);
        out
    }

    /// The key came up. Stopping the microphone joins nothing, so that nothing
    /// blocks between key-up and text.
    pub fn stop(&mut self, now: i64, first_packet: i64, peak_milli: u32) -> (out: Vec<Effect>)
        ensures
            final(self).same_setup(*old(self)),
            final(self).enabled == old(self).enabled,
            final(self).number == old(self).number,
            !final(self).held,
            final(self).utterance == let_go(old(self).utterance, now, first_packet, peak_milli),
            effect_views(out@) == (if old(self).utterance is None {
                Seq::<EffectView>::empty()
            } else {
                seq![
                    EffectView::ReleaseAsr,
                    EffectView::Overlay(OverlayState::Finalising, ""@),
                    EffectView::Disarm,
                ]
            }),
    {
        let mut out: Vec<Effect> = no_effects();
        self.held = false;
        match self.utterance {
            None => {},
            Some(u) => {
                let mut u: Utterance = u;
                u.t7_hotkey_up = now;
                u.t1_first_packet = first_packet;
                u.peak_milli = peak_milli;
                self.utterance = Some(u);
                add_effect(&mut out, Effect::ReleaseAsr);
                add_effect(&mut out, Effect::Overlay(OverlayState::Finalising, "".to_owned()));
                add_effect(&mut out, Effect::Disarm);
                assert(effect_views(out@) =~= seq![
                    EffectView::ReleaseAsr,
                    EffectView::Overlay(OverlayState::Finalising, ""@),
                    EffectView::Disarm,
                ]);
            },
        }
        out
    }

    /// Discards the utterance under way without inserting anything: the recogniser
    /// drops it too, so that none of it is heard in the next one.
    pub fn cancel(&mut self) -> (out: Vec<Effect>)
        ensures
            final(self).same_setup(*old(self)),
            final(self).enabled == old(self).enabled,
            final(self).utterance is None,
            final(self).number == old(self).number,
            !final(self).held,
            effect_views(out@) == cancelled(),
    {
        self.utterance = None;
        self.held = false;
        let mut out: Vec<Effect> = no_effects();
        add_effect(&mut out, Effect::Disarm);
        add_effect(&mut out, Effect::CancelAsr);
        add_effect(&mut out, Effect::ClearSink);
        add_effect(&mut out, Effect::Overlay(OverlayState::Hidden, "".to_owned()));
        assert(effect_views(out@) =~= cancelled());
        out
    }

    /// Pauses or resumes dictation. What is under way when it is paused is
    /// discarded.
    pub fn toggle(&mut self) -> (out: Vec<Effect>)
        ensures
            final(self).same_setup(*old(self)),
            final(self).enabled == !old(self).enabled,
            final(self).number == old(self).number,
            final(self).held == (!old(self).enabled && old(self).held),
            final(self).utterance == (if old(self).enabled {
                None
            } else {
                old(self).utterance
            }),
            effect_views(out@) == toggled(old(self).enabled),
    {
        self.enabled = !self.enabled;
        let mut out: Vec<Effect> = if self.enabled {
            no_effects()
        } else {
            self.cancel()
        };
        add_effect(&mut out, Effect::SetPaused(!self.enabled));
        add_effect(
            &mut out,
            Effect::Say(
                if self.enabled {
                    "Dictation enabled".to_owned()
                } else {
                    "Dictation paused".to_owned()
                },
            ),
        );
        assert(effect_views(out@) =~= toggled(old(self).enabled));
        out
    }

    /// What a command of the tray menu asks for.
    pub fn on_tray(&mut self, c: TrayCommand) -> (out: Vec<Effect>)
        ensures
            final(self).same_setup(*old(self)),
            c == TrayCommand::Toggle ==> final(self).enabled == !old(self).enabled
                && effect_views(out@) == toggled(old(self).enabled) && final(self).number
                == old(self).number && final(self).held == (!old(self).enabled && old(self).held)
                && final(self).utterance == (if old(self).enabled {
                None
            } else {
                old(self).utterance
            }),
            c != TrayCommand::Toggle ==> *final(self) == *old(self) && effect_views(out@)
                == seq![
                match c {
                    TrayCommand::LatencyReport => EffectView::Report,
                    TrayCommand::OpenSettings => EffectView::OpenSettings,
                    TrayCommand::ReloadDictionary => EffectView::ReloadSettings,
                    TrayCommand::ToggleAutostart => EffectView::FlipAutostart,
                    _ => EffectView::Quit,
                },
            ],
    {
        if c == TrayCommand::Toggle {
            return self.toggle();
        }
        let mut out: Vec<Effect> = no_effects();
        add_effect(
            &mut out,
            match c {
                TrayCommand::LatencyReport => Effect::Report,
                TrayCommand::OpenSettings => Effect::OpenSettings,
                TrayCommand::ReloadDictionary => Effect::ReloadSettings,
                TrayCommand::ToggleAutostart => Effect::FlipAutostart,
                _ => Effect::Quit,
            },
        );
        out
    }

    // ---- the recogniser -------------------------------------------------------

    /// A live hypothesis. The first of an utterance is timed. It is painted while the
    /// key is down; one that comes later would paint over the wait for the text, and one
    /// of another utterance is passed over.
    pub fn on_partial(&mut self, number: u64, text: &str, now: i64) -> (out: Vec<Effect>)
        ensures
            *final(self) == (Session { utterance: final(self).utterance, ..*old(self) }),
            final(self).utterance == (if number == old(self).number {
                heard(old(self).utterance, now)
            } else {
                old(self).utterance
            }),
            effect_views(out@) == (if number == old(self).number && old(self).held {
                seq![EffectView::Overlay(OverlayState::Listening, text@)]
            } else {
                Seq::<EffectView>::empty()
            }),
    {
        let mut out: Vec<Effect> = no_effects();
        if number != self.number {
            return out;
        }
        match self.utterance {
            Some(u) => {
                if u.t6_first_partial == 0 {
                    let mut u: Utterance = u;
                    u.t6_first_partial = now;
                    self.utterance = Some(u);
                }
            },
            None => {},
        }
        if self.held {
            add_effect(&mut out, Effect::Overlay(OverlayState::Listening, text.to_owned()));
            assert(effect_views(out@) =~= seq![
                EffectView::Overlay(OverlayState::Listening, text@),
            ]);
        }
        out
    }

    /// The recogniser failed.
    pub fn on_error(&self, error: &str) -> (out: Vec<Effect>)
        ensures
            effect_views(out@) == seq![
                EffectView::Complain("asr: "@ + error@),
                EffectView::Overlay(OverlayState::Error, error@),
            ],
    {
        let mut said: String = "asr: ".to_owned();
        push_str(&mut said, error);
        let mut out: Vec<Effect> = no_effects();
        add_effect(&mut out, Effect::Complain(said));
        add_effect(&mut out, Effect::Overlay(OverlayState::Error, error.to_owned()));
        assert(effect_views(out@) =~= seq![
            EffectView::Complain("asr: "@ + error@),
            EffectView::Overlay(OverlayState::Error, error@),
        ]);
        out
    }

    /// The final transcript. It ends the utterance under way; one of another utterance,
    /// or of one that was cancelled, is passed over.
    pub fn on_final(&mut self, number: u64, text: &str, now: i64) -> (p: Option<Pending>)
        ensures
            *final(self) == (Session {
                utterance: final(self).utterance,
                held: final(self).held,
                ..*old(self)
            }),
            final(self).utterance == (if number == old(self).number {
                None
            } else {
                old(self).utterance
            }),
            final(self).held == (number != old(self).number && old(self).held),
            pending_view(p) == finished(
                heeded(old(self).utterance, old(self).number, number),
                old(self).formatter.result(text@),
                now,
            ),
            p matches Some(done) ==> done.utterance.chars == done.text@.len(),
    {
        if number != self.number {
            return None;
        }
        self.held = false;
        match self.utterance {
            None => None,
            Some(u) => {
                self.utterance = None;
                let text: String = self.formatter.format(text);
                let mut u: Utterance = u;
                u.t9_final_ready = now;
                u.chars = to_chars(text.as_str()).len();
                Some(Pending { utterance: u, text })
            },
        }
    }

    // ---- where it goes --------------------------------------------------------

    /// Whether an application is a terminal on this desktop.
    pub fn is_terminal(&self, exe: &str) -> (r: bool)
        ensures
            r == terminal_on(self.desktop, exe@, self.insertion@),
    {
        match self.desktop {
            Desktop::Windows => windows::target_app::is_terminal(
                exe,
                self.insertion.terminal_apps.as_slice(),
            ),
            Desktop::Linux => linux::target_app::is_terminal(
                exe,
                self.insertion.terminal_apps.as_slice(),
            ),
        }
    }

    /// How the text goes into the application that has the focus: a shell prompt
    /// is not a document. There it is typed or pasted as was chosen for
    /// terminals, and without line breaks.
    pub fn aim(&self, p: Pending, exe: &str) -> (a: Aimed)
        ensures
            a.text@ == aimed_text(self.desktop, exe@, self.insertion@, p.text@),
            a.mode == aimed_mode(self.desktop, exe@, self.insertion@),
            a.utterance.terminal == terminal_on(self.desktop, exe@, self.insertion@),
            a.utterance.chars == a.text@.len(),
            a.utterance.insert_mode@ == (match a.mode {
                Mode::Paste => "paste"@,
                Mode::Type => "type"@,
            }),
            a.utterance == (Utterance {
                terminal: a.utterance.terminal,
                chars: a.utterance.chars,
                insert_mode: a.utterance.insert_mode,
                ..p.utterance
            }),
    {
        let terminal: bool = self.is_terminal(exe);
        let mut u: Utterance = p.utterance;
        let text: String = if terminal {
            strip_newlines(
                p.text.as_str(),
                self.insertion.terminal_newline_replacement.as_str(),
            )
        } else {
            p.text
        };
        let name: &str = if terminal {
            self.insertion.terminal_mode.as_str()
        } else {
            self.insertion.mode.as_str()
        };
        let mode: Mode = mode_for(self.desktop, name);
        u.chars = to_chars(text.as_str()).len();
        u.terminal = terminal;
        u.insert_mode = mode.name();
        Aimed { utterance: u, text, mode }
    }

    // ---- settings -------------------------------------------------------------

    /// Applies saved settings to the running app. Everything applies: a setting
    /// that needs a restart looks like one that does nothing.
    pub fn apply(&mut self, fresh: &Settings) -> (out: Vec<Effect>)
        ensures
            final(self).same_dictation(*old(self)),
            final(self).same_model(*old(self)),
            final(self).insertion@ == fresh@.insertion,
            follows(final(self).formatter, fresh@),
            effect_views(out@) == seq![EffectView::SetKeyterms(terms_for(fresh@))]
                + rebound(old(self).desktop, fresh@.key) + seq![
                if model_changed(*old(self), fresh@) {
                    EffectView::ReloadModel
                } else {
                    EffectView::SetConfig(settings::knobs(fresh@.model))
                },
            ],
    {
        self.formatter = formatter_for(fresh);
        let mut out: Vec<Effect> = no_effects();
        add_effect(&mut out, Effect::SetKeyterms(self.formatter.keyterms()));
        self.insertion = fresh.insertion.copied();
        assert(effect_views(out@) =~= seq![
            EffectView::SetKeyterms(terms_for(fresh@)),
        ]);
        let ghost first = effect_views(out@);
        if let Some(code) = key_code(self.desktop, fresh.hotkey.key.as_str()) {
            add_effect(&mut out, Effect::Rebind(code));
            add_effect(&mut out, Effect::Remind(hotkey_label(fresh.hotkey.key.as_str())));
        }
        assert(effect_views(out@) =~= first + rebound(self.desktop, fresh@.key));
        let changed: bool = !chars::str_eq(
            fresh.model.profile.as_str(),
            self.loaded_profile.as_str(),
        ) || !chars::str_eq(fresh.model.dir.as_str(), self.loaded_dir.as_str())
            || fresh.model.single_thread != self.loaded_single_thread || !chars::str_eq(
            fresh.model.keyterm_boost.as_str(),
            self.loaded_boost.as_str(),
        );
        let ghost second = effect_views(out@);
        if changed {
            add_effect(&mut out, Effect::ReloadModel);
        } else {
            add_effect(&mut out, Effect::SetConfig(fresh.config()));
        }
        assert(effect_views(out@) =~= second + seq![
            if model_changed(*old(self), fresh@) {
                EffectView::ReloadModel
            } else {
                EffectView::SetConfig(settings::knobs(fresh@.model))
            },
        ]);
        out
    }

    /// The terms that a freshly loaded model is biased towards, if there are any.
    pub fn terms_for_reload(&self) -> (t: Option<String>)
        ensures
            t is Some <==> terms_of(self.formatter).len() > 0,
            t matches Some(s) ==> s@ == terms_of(self.formatter),
    {
        let terms: String = self.formatter.keyterms();
        if terms.as_str().is_empty() {
            None
        } else {
            Some(terms)
        }
    }

    /// A model that was asked for is not there. What is loaded stays.
    pub fn reload_missing(&self, dir: &str, fresh: &Settings) -> (out: Vec<Effect>)
        ensures
            effect_views(out@) == seq![
                EffectView::Complain(
                    "no model at "@ + dir@ + ". Run scripts\\fetch-model.ps1 for the "@
                        + fresh@.model.profile + " profile."@,
                ),
                EffectView::Overlay(OverlayState::Error, "that model is not downloaded"@),
            ],
    {
        let mut said: String = "no model at ".to_owned();
        push_str(&mut said, dir);
        push_str(&mut said, ". Run scripts\\fetch-model.ps1 for the ");
        push_str(&mut said, fresh.model.profile.as_str());
        push_str(&mut said, " profile.");
        let ghost s = said@;
        let mut out: Vec<Effect> = no_effects();
        add_effect(&mut out, Effect::Complain(said));
        add_effect(
            &mut out,
            Effect::Overlay(OverlayState::Error, "that model is not downloaded".to_owned()),
        );
        assert(effect_views(out@) =~= seq![
            EffectView::Complain(s),
            EffectView::Overlay(OverlayState::Error, "that model is not downloaded"@),
        ]);
        out
    }

    /// A model that was asked for could not be loaded. What is loaded stays.
    pub fn reload_failed(&self, dir: &str, error: &str) -> (out: Vec<Effect>)
        ensures
            effect_views(out@) == seq![
                EffectView::Complain("could not load "@ + dir@ + ": "@ + error@),
                EffectView::Overlay(OverlayState::Error, "could not load that model"@),
            ],
    {
        let mut said: String = "could not load ".to_owned();
        push_str(&mut said, dir);
        push_str(&mut said, ": ");
        push_str(&mut said, error);
        let ghost s = said@;
        let mut out: Vec<Effect> = no_effects();
        add_effect(&mut out, Effect::Complain(said));
        add_effect(
            &mut out,
            Effect::Overlay(OverlayState::Error, "could not load that model".to_owned()),
        );
        assert(effect_views(out@) =~= seq![
            EffectView::Complain(s),
            EffectView::Overlay(OverlayState::Error, "could not load that model"@),
        ]);
        out
    }

    /// A model has been loaded and has taken the place of the one before. What
    /// was captured for that one is dropped.
    pub fn reloaded(&mut self, fresh: &Settings, elapsed: &str) -> (out: Vec<Effect>)
        ensures
            !model_changed(*final(self), fresh@),
            final(self).same_dictation(*old(self)),
            final(self).insertion == old(self).insertion,
            final(self).formatter == old(self).formatter,
            effect_views(out@) == seq![
                EffectView::ClearSink,
                EffectView::Say(
                    "Model reloaded: "@ + fresh@.model.profile + " profile, "@ + threading(
                        fresh@.model.single_thread,
                    ) + ", in "@ + elapsed@,
                ),
            ],
    {
        self.loaded_profile = fresh.model.profile.clone();
        self.loaded_dir = fresh.model.dir.clone();
        self.loaded_single_thread = fresh.model.single_thread;
        self.loaded_boost = fresh.model.keyterm_boost.clone();
        let mut said: String = "Model reloaded: ".to_owned();
        push_str(&mut said, fresh.model.profile.as_str());
        push_str(&mut said, " profile, ");
        push_str(&mut said, threading_text(fresh.model.single_thread));
        push_str(&mut said, ", in ");
        push_str(&mut said, elapsed);
        let ghost s = said@;
        let mut out: Vec<Effect> = no_effects();
        add_effect(&mut out, Effect::ClearSink);
        add_effect(&mut out, Effect::Say(said));
        assert(effect_views(out@) =~= seq![EffectView::ClearSink, EffectView::Say(s)]);
        out
    }
}

/// What discarding an utterance takes.
pub open spec fn cancelled() -> Seq<EffectView> {
    seq![
        EffectView::Disarm,
        EffectView::CancelAsr,
        EffectView::ClearSink,
        EffectView::Overlay(OverlayState::Hidden, ""@),
    ]
}

/// What pausing or resuming takes, given whether dictation was enabled.
pub open spec fn toggled(was_enabled: bool) -> Seq<EffectView> {
    if was_enabled {
        cancelled() + seq![
            EffectView::SetPaused(true),
            EffectView::Say("Dictation paused"@),
        ]
    } else {
        seq![EffectView::SetPaused(false), EffectView::Say("Dictation enabled"@)]
    }
}

/// How a model runs.
pub open spec fn threading(single: bool) -> Seq<char> {
    if single {
        "single threaded"@
    } else {
        "multi threaded"@
    }
}

/// How a model runs.
pub fn threading_text(single: bool) -> (s: &'static str)
    ensures
        s@ == threading(single),
{
    if single {
        "single threaded"
    } else {
        "multi threaded"
    }
}

/// The model that settings ask for is not the one that is loaded, or not as it is
/// loaded: the bias towards the dictionary is given to it once, when it loads.
pub open spec fn model_changed(a: Session, s: SettingsView) -> bool {
    ||| s.model.profile != a.loaded_profile@
    ||| s.model.dir != a.loaded_dir@
    ||| s.model.single_thread != a.loaded_single_thread
    ||| s.model.keyterm_boost != a.loaded_boost@
}

/// The code of a key on a desktop.
pub open spec fn code_on(desktop: Desktop, key: Seq<char>) -> Option<u32> {
    match crate::control::key_named(key) {
        None => None,
        Some(k) => Some(
            match desktop {
                Desktop::Windows => crate::hotkey::vk::code(k),
                Desktop::Linux => linux::hotkey::vk::code(k),
            },
        ),
    }
}

/// The code of a key on a desktop.
pub fn key_code(desktop: Desktop, key: &str) -> (c: Option<u32>)
    ensures
        c == code_on(desktop, key@),
{
    match desktop {
        Desktop::Windows => crate::hotkey::vk::from_name(key),
        Desktop::Linux => linux::hotkey::vk::from_name(key),
    }
}

/// The key that is watched from the start, and what is said where its name is not
/// known: Right Ctrl takes its place.
pub fn first_key(desktop: Desktop, key: &str) -> (r: (u32, Option<String>))
    ensures
        match code_on(desktop, key@) {
            Some(c) => r.0 == c && r.1 is None,
            None => r.0 == (match desktop {
                Desktop::Windows => crate::hotkey::vk::RCONTROL,
                Desktop::Linux => linux::hotkey::vk::RCONTROL,
            }) && (r.1 matches Some(s) && s@ == "unknown hotkey \""@ + key@
                + "\", falling back to Right Ctrl"@),
        },
{
    match key_code(desktop, key) {
        Some(c) => (c, None),
        None => {
            let mut said: String = "unknown hotkey \"".to_owned();
            push_str(&mut said, key);
            push_str(&mut said, "\", falling back to Right Ctrl");
            (
                match desktop {
                    Desktop::Windows => crate::hotkey::vk::RCONTROL,
                    Desktop::Linux => linux::hotkey::vk::RCONTROL,
                },
                Some(said),
            )
        },
    }
}

/// What the pill says at the start of the key that is watched.
pub fn first_hint(key: &str) -> (label: String)
    ensures
        label@ == (if crate::control::key_named(key@) is Some {
            crate::control::label_of(key@)
        } else {
            "Ctrl"@
        }),
{
    match hold_key(key) {
        Some(_) => hotkey_label(key),
        None => "Ctrl".to_owned(),
    }
}

/// The key that settings name is watched from now on, and the pill reminds of it; one
/// that is not known leaves both as they are.
pub open spec fn rebound(desktop: Desktop, key: Seq<char>) -> Seq<EffectView> {
    match code_on(desktop, key) {
        Some(c) => seq![
            EffectView::Rebind(c),
            EffectView::Remind(crate::control::label_of(key)),
        ],
        None => seq![],
    }
}

/// What a key event or a control command asks for, where it does not bear on the
/// utterance under way.
pub fn on_control(e: HotkeyEvent) -> (out: Option<TrayCommand>)
    ensures
        out == (match e {
            HotkeyEvent::Toggle => Some(TrayCommand::Toggle),
            HotkeyEvent::Reload => Some(TrayCommand::ReloadDictionary),
            HotkeyEvent::Report => Some(TrayCommand::LatencyReport),
            HotkeyEvent::Quit => Some(TrayCommand::Quit),
            _ => None,
        }),
{
    match e {
        HotkeyEvent::Toggle => Some(TrayCommand::Toggle),
        HotkeyEvent::Reload => Some(TrayCommand::ReloadDictionary),
        HotkeyEvent::Report => Some(TrayCommand::LatencyReport),
        HotkeyEvent::Quit => Some(TrayCommand::Quit),
        _ => None,
    }
}

// ---- a finished dictation ---------------------------------------------------------

/// A dictation whose text is ready.
pub struct Pending {
    pub utterance: Utterance,
    pub text: String,
}

/// A dictation whose text is ready for the application that has the focus.
pub struct Aimed {
    pub utterance: Utterance,
    pub text: String,
    pub mode: Mode,
}

/// Whether an application is a terminal on a desktop.
pub open spec fn terminal_on(desktop: Desktop, exe: Seq<char>, i: InsertionView) -> bool {
    match desktop {
        Desktop::Windows => target_app::terminal(
            target_app::fixed(windows::target_app::DEFAULT_TERMINALS@),
            exe,
            i.terminal_apps,
        ),
        Desktop::Linux => target_app::terminal(
            target_app::fixed(linux::target_app::DEFAULT_TERMINALS@),
            exe,
            i.terminal_apps,
        ),
    }
}

/// The way that a name stands for on a desktop.
pub open spec fn mode_on(desktop: Desktop, name: Seq<char>) -> Mode {
    match desktop {
        Desktop::Windows => inject::mode_named(name),
        Desktop::Linux => match linux::inject::mode_named(name) {
            linux::inject::Mode::Paste => Mode::Paste,
            linux::inject::Mode::Type => Mode::Type,
        },
    }
}

/// The way that a name stands for on a desktop.
pub fn mode_for(desktop: Desktop, name: &str) -> (m: Mode)
    ensures
        m == mode_on(desktop, name@),
{
    match desktop {
        Desktop::Windows => Mode::from_name(name),
        Desktop::Linux => match linux::inject::Mode::from_name(name) {
            linux::inject::Mode::Paste => Mode::Paste,
            linux::inject::Mode::Type => Mode::Type,
        },
    }
}

/// The text that goes into an application.
pub open spec fn aimed_text(
    desktop: Desktop,
    exe: Seq<char>,
    i: InsertionView,
    text: Seq<char>,
) -> Seq<char> {
    if terminal_on(desktop, exe, i) {
        target_app::stripped(text, i.terminal_newline_replacement)
    } else {
        text
    }
}

/// The way in which it goes there.
pub open spec fn aimed_mode(desktop: Desktop, exe: Seq<char>, i: InsertionView) -> Mode {
    mode_on(
        desktop,
        if terminal_on(desktop, exe, i) {
            i.terminal_mode
        } else {
            i.mode
        },
    )
}

impl Pending {
    /// Whether nothing was heard.
    pub fn is_blank(&self) -> (r: bool)
        ensures
            r == (words::trim(self.text@).len() == 0),
    {
        trim_chars(to_chars(self.text.as_str()).as_slice(), Class::Whitespace).len() == 0
    }
}

/// What is done when nothing was heard.
pub fn nothing_heard() -> (out: Vec<Effect>)
    ensures
        effect_views(out@) == seq![EffectView::Overlay(OverlayState::Error, "nothing heard"@)],
{
    let mut out: Vec<Effect> = no_effects();
    add_effect(&mut out, Effect::Overlay(OverlayState::Error, "nothing heard".to_owned()));
    assert(effect_views(out@) =~= seq![
        EffectView::Overlay(OverlayState::Error, "nothing heard"@),
    ]);
    out
}

/// What is said of a dictation that went in: how long the user waited, and how
/// long the text is. The text itself is said only when that was asked for, since
/// what the app says may end up in a file.
pub open spec fn outcome(text: Seq<char>, waited: Seq<char>, echo: bool) -> Seq<char> {
    if echo {
        waited + " ms  "@ + words::trim(text)
    } else {
        waited + " ms  "@ + number::decimal(words::trim(text).len()) + " characters"@
    }
}

/// What is done once a text went in, or could not: a confirmation for the one, and
/// the reason for the other, which must not look as if the text had gone in.
pub open spec fn after_insertion(
    text: Seq<char>,
    failed: Option<Seq<char>>,
    waited: Seq<char>,
    echo: bool,
) -> Seq<EffectView> {
    match failed {
        Some(e) => seq![
            EffectView::Complain("insertion failed: "@ + e),
            EffectView::Overlay(OverlayState::Error, e),
        ],
        None => seq![
            EffectView::Overlay(OverlayState::Done, words::trim(text)),
            EffectView::Say(outcome(text, waited, echo)),
        ],
    }
}

/// What is done once a text went in, or could not. The confirmation is painted after
/// the text is in the target, so that it costs the user nothing.
pub fn inserted(
    text: &str,
    failed: Option<String>,
    waited: &str,
    echo: bool,
) -> (out: Vec<Effect>)
    ensures
        effect_views(out@) == after_insertion(text@, asr::opt(failed), waited@, echo),
{
    let mut out: Vec<Effect> = no_effects();
    let ghost why = asr::opt(failed);
    match failed {
        Some(e) => {
            let mut said: String = "insertion failed: ".to_owned();
            push_str(&mut said, e.as_str());
            add_effect(&mut out, Effect::Complain(said));
            add_effect(&mut out, Effect::Overlay(OverlayState::Error, e));
        },
        None => {
            let inner: Vec<char> = trim_chars(to_chars(text).as_slice(), Class::Whitespace);
            let shown: String = from_chars(inner.as_slice());
            let mut said: String = waited.to_owned();
            push_str(&mut said, " ms  ");
            if echo {
                push_str(&mut said, shown.as_str());
            } else {
                push_decimal(&mut said, inner.len() as u64);
                push_str(&mut said, " characters");
            }
            assert(said@ =~= outcome(text@, waited@, echo));
            add_effect(&mut out, Effect::Overlay(OverlayState::Done, shown));
            add_effect(&mut out, Effect::Say(said));
        },
    }
    assert(effect_views(out@) =~= after_insertion(text@, why, waited@, echo));
    out
}

/// Whether what was dictated is said aloud: off unless it was asked for by name.
pub fn echo_transcripts(variable: Option<&str>) -> (r: bool)
    ensures
        r == (variable matches Some(v) && v@ == "1"@),
{
    match variable {
        Some(v) => chars::str_eq(v, "1"),
        None => false,
    }
}

/// Whether settings are to be read again: they were saved in the window, or the
/// file is not the one that was last seen. The new stamp is kept.
pub fn settings_changed(seen: &mut Option<u64>, stamp: Option<u64>, saved: bool) -> (r: bool)
    ensures
        r == (saved || *old(seen) != stamp),
        *final(seen) == stamp,
{
    let same: bool = match (*seen, stamp) {
        (Some(a), Some(b)) => a == b,
        (None, None) => true,
        _ => false,
    };
    *seen = stamp;
    saved || !same
}

/// How long the loop sleeps when nothing is on screen, in milliseconds: long
/// enough to cost nothing, short enough to notice an edited file.
pub const IDLE_WAIT_MS: u64 = 2_000;

/// How long the loop sleeps.
pub fn wait_for(tick: Option<u64>) -> (ms: u64)
    ensures
        ms == (match tick {
            Some(t) => t,
            None => IDLE_WAIT_MS,
        }),
{
    match tick {
        Some(t) => t,
        None => IDLE_WAIT_MS,
    }
}

} // verus!
