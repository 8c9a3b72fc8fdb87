use flow::asr_service::Event;
use flow::control::HotkeyEvent;
use flow::inject::Mode;
use flow::audio::CaptureStats;
use flow::reports::{
    demo_words, dictation_report, dictionary_reloaded, explain_dictionary, heed, level_verdict,
    mic_report, no_model, ready, selftest, settings_applied, which_app, Heed, MicFigures,
};
use flow::session::{
    echo_transcripts, first_hint, first_key, inserted, nothing_heard, on_control, settings_changed, wait_for,
    Desktop, Effect, Session,
};
use flow::settings::Settings;
use flow::tray::TrayCommand;

fn shown(effects: &[Effect]) -> Vec<String> {
    effects
        .iter()
        .map(|e| match e {
            Effect::ResetCounters => "reset".to_string(),
            Effect::BeginAsr(n) => format!("begin {n}"),
            Effect::ReleaseAsr => "release".to_string(),
            Effect::CancelAsr => "cancel".to_string(),
            Effect::Arm => "arm".to_string(),
            Effect::Disarm => "disarm".to_string(),
            Effect::ClearSink => "clear".to_string(),
            Effect::Overlay(s, t) => format!("{s:?} {t}"),
            Effect::Complain(t) => format!("! {t}"),
            Effect::Say(t) => format!("> {t}"),
            Effect::SetPaused(b) => format!("paused {b}"),
            Effect::SetKeyterms(t) => format!("terms {t}"),
            Effect::SetConfig(c) => format!("config {}", c.partial_cadence_ms),
            Effect::Rebind(k) => format!("rebind {k}"),
            Effect::Remind(t) => format!("remind {t}"),
            Effect::ReloadModel => "reload model".to_string(),
            Effect::ReloadSettings => "reload settings".to_string(),
            Effect::OpenSettings => "open settings".to_string(),
            Effect::FlipAutostart => "autostart".to_string(),
            Effect::Report => "report".to_string(),
            Effect::Quit => "quit".to_string(),
        })
        .collect()
}

fn session() -> Session {
    Session::new(Desktop::Windows, &Settings::default())
}

fn dictating() -> Session {
    let mut a = session();
    assert_eq!(shown(&a.start(true)), ["reset", "begin 1", "arm"]);
    assert_eq!(shown(&a.armed(100, 102, 3, 4)), ["Listening "]);
    a
}

#[test]
fn a_dictation_from_key_to_text() {
    let mut a = dictating();
    assert!(a.start(true).is_empty());
    assert_eq!(shown(&a.on_partial(1, "we", 150)), ["Listening we"]);
    a.on_partial(1, "we ship", 160);
    assert_eq!(shown(&a.stop(200, 110, 250)), ["release", "Finalising ", "disarm"]);
    assert!(a.on_partial(1, "we ship it", 210).is_empty(), "the key is up");
    let p = a.on_final(1, "we ship new line today", 240).unwrap();
    assert!(a.utterance.is_none());
    assert_eq!(p.text, "We ship\nToday ");
    assert!(!p.is_blank());
    let u = p.utterance;
    assert_eq!((u.t0_hotkey_down, u.t0b_armed, u.t6_first_partial), (100, 102, 150));
    assert_eq!((u.t7_hotkey_up, u.t1_first_packet, u.peak_milli), (200, 110, 250));
    assert_eq!((u.t9_final_ready, u.chars, u.reset_us, u.start_us), (240, 14, 3, 4));
    let aimed = a.aim(p, "notepad.exe");
    assert_eq!((aimed.text.as_str(), aimed.mode), ("We ship\nToday ", Mode::Paste));
    assert!(!aimed.utterance.terminal);
    assert_eq!(aimed.utterance.insert_mode, "paste");
    assert_eq!(
        shown(&inserted(&aimed.text, None, "    40", false)),
        ["Done We ship\nToday", ">     40 ms  13 characters"]
    );
}

#[test]
fn a_prompt_gets_keystrokes_and_no_line_break() {
    let mut a = dictating();
    a.stop(1, 1, 0);
    let p = a.on_final(1, "git status new line ls", 2).unwrap();
    let aimed = a.aim(p, "powershell.exe");
    assert_eq!((aimed.text.as_str(), aimed.mode), ("Git status Ls ", Mode::Type));
    assert!(aimed.utterance.terminal);
    assert_eq!((aimed.utterance.insert_mode, aimed.utterance.chars), ("type", 14));
    let mut linux = Session::new(Desktop::Linux, &Settings::default());
    linux.armed(0, 0, 0, 0);
    let p = linux.on_final(0, "hi", 2).unwrap();
    let aimed = linux.aim(p, "firefox");
    assert_eq!(aimed.mode, Mode::Paste);
    assert!(linux.is_terminal("kitty") && !a.is_terminal("kitty"));
}

#[test]
fn nothing_begins_without_a_microphone_or_while_paused() {
    let mut a = session();
    assert_eq!(
        shown(&a.start(false)),
        ["reset", "begin 1", "! no microphone", "Error no microphone"]
    );
    assert_eq!(
        shown(&a.toggle()),
        ["disarm", "cancel", "clear", "Hidden ", "paused true", "> Dictation paused"]
    );
    assert!(a.start(true).is_empty());
    assert_eq!(shown(&a.toggle()), ["paused false", "> Dictation enabled"]);
    assert!(a.stop(0, 0, 0).is_empty());
}

#[test]
fn a_cancelled_dictation_is_never_inserted() {
    let mut a = dictating();
    assert_eq!(shown(&a.cancel()), ["disarm", "cancel", "clear", "Hidden "]);
    assert!(a.on_partial(1, "text", 4).is_empty());
    assert!(a.on_final(1, "text", 5).is_none());
}

#[test]
fn a_cancelled_dictation_is_not_taken_for_the_next() {
    let mut a = dictating();
    a.cancel();
    assert_eq!(shown(&a.start(true)), ["reset", "begin 2", "arm"]);
    a.armed(300, 301, 0, 0);
    assert!(a.on_partial(1, "cancelled words", 310).is_empty());
    assert!(a.on_final(1, "cancelled words", 320).is_none());
    assert_eq!(shown(&a.on_partial(2, "new", 330)), ["Listening new"]);
    a.stop(340, 305, 1);
    let p = a.on_final(2, "new words", 350).unwrap();
    assert_eq!((p.text.as_str(), p.utterance.t6_first_partial), ("New words ", 330));
    a.number = u64::MAX;
    assert_eq!(shown(&a.start(true))[1], "begin 0");
}

#[test]
fn silence_is_said_to_be_silence() {
    let mut a = dictating();
    a.stop(1, 1, 0);
    let p = a.on_final(1, "  ", 2).unwrap();
    assert!(p.is_blank());
    assert_eq!(shown(&nothing_heard()), ["Error nothing heard"]);
}

#[test]
fn failures_are_said() {
    let a = session();
    assert_eq!(shown(&a.on_error("boom")), ["! asr: boom", "Error boom"]);
    assert_eq!(
        shown(&inserted("x ", Some("blocked".to_string()), "     9", true)),
        ["! insertion failed: blocked", "Error blocked"]
    );
    assert_eq!(shown(&inserted("x ", None, "     9", true)), ["Done x", ">      9 ms  x"]);
    assert!(echo_transcripts(Some("1")));
    assert!(!echo_transcripts(Some("yes")) && !echo_transcripts(None));
}

#[test]
fn settings_apply_to_the_running_app() {
    let mut a = session();
    let mut fresh = Settings::default();
    fresh.dictionary.insert("dddm".to_string(), "DDDM".to_string());
    fresh.hotkey.key = "f13".to_string();
    fresh.insertion.terminal_mode = "paste".to_string();
    fresh.model.partial_cadence_ms = 99;
    assert_eq!(shown(&a.apply(&fresh)), ["terms DDDM", "rebind 124", "remind F13", "config 99"]);
    assert_eq!(a.insertion.terminal_mode, "paste");
    fresh.hotkey.key = "nokey".to_string();
    fresh.model.profile = "fast".to_string();
    assert_eq!(shown(&a.apply(&fresh)), ["terms DDDM", "reload model"]);
    assert_eq!(a.terms_for_reload().as_deref(), Some("DDDM"));
    assert_eq!(
        shown(&a.reload_missing("m", &fresh)),
        [
            "! no model at m. Run scripts\\fetch-model.ps1 for the fast profile.",
            "Error that model is not downloaded"
        ]
    );
    assert_eq!(
        shown(&a.reload_failed("m", "bad")),
        ["! could not load m: bad", "Error could not load that model"]
    );
    assert_eq!(shown(&a.apply(&fresh)).last().unwrap(), "reload model");
    assert_eq!(
        shown(&a.reloaded(&fresh, "1s")),
        ["clear", "> Model reloaded: fast profile, single threaded, in 1s"]
    );
    assert_eq!(shown(&a.apply(&fresh)).last().unwrap(), "config 99");
    fresh.model.single_thread = false;
    assert_eq!(shown(&a.apply(&fresh)).last().unwrap(), "reload model");
    fresh.model.single_thread = true;
    fresh.model.keyterm_boost = "9".to_string();
    assert_eq!(shown(&a.apply(&fresh)).last().unwrap(), "reload model");
    a.reloaded(&fresh, "1s");
    assert_eq!(shown(&a.apply(&fresh)).last().unwrap(), "config 99");
    fresh.model.dir = "elsewhere".to_string();
    assert_eq!(shown(&a.apply(&fresh)).last().unwrap(), "reload model");
    assert_eq!(session().terms_for_reload(), None);
}

#[test]
fn the_tray_and_the_control_channel_ask_for_the_same() {
    let mut a = session();
    assert_eq!(shown(&a.on_tray(TrayCommand::LatencyReport)), ["report"]);
    assert_eq!(shown(&a.on_tray(TrayCommand::OpenSettings)), ["open settings"]);
    assert_eq!(shown(&a.on_tray(TrayCommand::ReloadDictionary)), ["reload settings"]);
    assert_eq!(shown(&a.on_tray(TrayCommand::ToggleAutostart)), ["autostart"]);
    assert_eq!(shown(&a.on_tray(TrayCommand::Quit)), ["quit"]);
    a.on_tray(TrayCommand::Toggle);
    assert!(!a.enabled);
    assert_eq!(on_control(HotkeyEvent::Toggle), Some(TrayCommand::Toggle));
    assert_eq!(on_control(HotkeyEvent::Reload), Some(TrayCommand::ReloadDictionary));
    assert_eq!(on_control(HotkeyEvent::Report), Some(TrayCommand::LatencyReport));
    assert_eq!(on_control(HotkeyEvent::Quit), Some(TrayCommand::Quit));
    assert_eq!(on_control(HotkeyEvent::Down), None);
}

#[test]
fn an_unknown_key_falls_back() {
    assert_eq!(first_key(Desktop::Windows, "f13"), (0x7C, None));
    assert_eq!(
        first_key(Desktop::Linux, "x"),
        (97, Some("unknown hotkey \"x\", falling back to Right Ctrl".to_string()))
    );
    assert_eq!((first_hint("CapsLock"), first_hint("x")), ("Caps".to_string(), "Ctrl".to_string()));
}

#[test]
fn an_edited_file_is_noticed_once() {
    let mut seen = Some(1);
    assert!(!settings_changed(&mut seen, Some(1), false));
    assert!(settings_changed(&mut seen, Some(1), true));
    assert!(settings_changed(&mut seen, Some(2), false));
    assert!(!settings_changed(&mut seen, Some(2), false));
    assert!(settings_changed(&mut seen, None, false));
    assert_eq!((wait_for(Some(40)), wait_for(None)), (40, 2000));
}

#[test]
fn the_dictionary_is_explained() {
    let mut s = Settings::default();
    let empty = explain_dictionary(&s, " ");
    assert_eq!(empty[0], "dictionary: 0 entries");
    assert_eq!(empty[1], "  (empty, so it changes nothing. Add entries in the settings window.)");
    assert_eq!(empty[3], "formatting: capitals true, spoken punctuation true, trailing space true");
    assert_eq!(empty[5], "as recognised: hello there comma this is a test full stop");
    assert_eq!(empty[6], "as inserted:   Hello there, this is a test. ");
    assert_eq!(empty[9], "as inserted:   We ship on friday\nThen we review ");
    s.dictionary.insert("lift off".to_string(), "Lift-Off".to_string());
    s.dictionary.insert("dddm".to_string(), "DDDM".to_string());
    assert_eq!(
        explain_dictionary(&s, "about dddm"),
        [
            "dictionary: 2 entries",
            "  heard \"dddm\"  ->  written \"DDDM\"",
            "  heard \"lift off\"  ->  written \"Lift-Off\"",
            "",
            "sent to the recogniser as key terms (bias 2):",
            "  Lift-Off,DDDM",
            "",
            "formatting: capitals true, spoken punctuation true, trailing space true",
            "",
            "as recognised: about dddm",
            "as inserted:   About DDDM ",
            "",
        ]
    );
}

#[test]
fn the_focus_is_explained() {
    let a = session();
    assert_eq!(
        which_app(&a, "cmd.exe", "\" \""),
        [
            "foreground application: cmd.exe",
            "treated as a terminal:  true",
            "insertion would use:    type",
            "line breaks replaced with \" \" so nothing can be executed",
        ]
    );
    assert_eq!(which_app(&a, "", "")[0], "foreground application: unknown");
    assert_eq!(which_app(&a, "", "").len(), 3);
}

#[test]
fn one_dictation_on_a_timer_is_heeded() {
    let partial = Event::Partial { utterance: 1, text: "hi".to_string() };
    let error = Event::Error("bad".to_string());
    assert!(matches!(heed(&partial, false, false), Heed::Nothing));
    assert!(matches!(heed(&partial, false, true), Heed::Say(s) if s == "  partial: hi"));
    assert!(matches!(heed(&partial, true, false), Heed::Say(_)));
    assert!(matches!(heed(&error, false, false), Heed::Nothing));
    assert!(matches!(heed(&error, true, false), Heed::Complain(s) if s == "asr: bad"));
    let done = Event::Final {
        utterance: 1,
        text: String::new(),
        lines: vec![],
        wait_for_inflight: 0,
        drain: 0,
        total: 0,
    };
    assert!(matches!(heed(&done, true, false), Heed::Done));
    assert!(matches!(heed(&done, false, false), Heed::Nothing));
    assert_eq!((level_verdict(5), level_verdict(6)), ("silence", "audio present"));
    assert_eq!(demo_words(40, "one two").as_deref(), Some("one"));
    assert_eq!(demo_words(90, "one two").as_deref(), Some("one two"));
    assert_eq!(demo_words(90, "").as_deref(), Some("this is what it looks like when the words keep coming"));
    assert_eq!(demo_words(41, "x"), None);
}

#[test]
fn tests_of_the_parts_are_reported() {
    assert_eq!(
        dictation_report("hello comma you", "412", "3", "409"),
        [
            "",
            "key up -> transcript: 412 ms (in-flight 3, drain 409)",
            "raw:       hello comma you",
            "formatted: Hello, you ",
        ]
    );
    let f = MicFigures {
        first_packet: "4.2".to_string(),
        rate: "15998".to_string(),
        peak: "0.006".to_string(),
        peak_milli: 6,
        samples: 47994,
        seconds: 3,
    };
    let mut stats = CaptureStats::default();
    stats.packets = 300;
    stats.last_reset_us = 7;
    stats.last_start_us = 8;
    assert_eq!(
        mic_report(&f, &stats),
        [
            "first packet 4.2 ms after arm (reset 7 us, start 8 us)",
            "47994 samples in 3 s = 15998 Hz after conversion (target 16000)",
            "packets 300, glitches 0, device errors 0",
            "peak level 0.006 (audio present)",
        ]
    );
}

#[test]
fn start_up_is_reported() {
    let mut s = Settings::default();
    s.dictionary.insert("lift off".to_string(), "Lift-Off".to_string());
    s.dictionary.insert("dddm".to_string(), "DDDM".to_string());
    assert_eq!(
        ready(&s, "1.2s", "here/settings.toml"),
        [
            "Ready in 1.2s. Hold rightctrl to dictate.",
            "Insertion: paste normally, type in terminals.",
            "Model: balanced profile, single threaded.",
            "Settings: here/settings.toml",
        ]
    );
    assert_eq!(no_model("m"), "No model at m.\nRun scripts\\fetch-model.ps1 to download it.");
    assert_eq!(
        settings_applied(&s),
        "Settings applied: hold rightctrl, balanced profile, insertion paste / type in terminals, \
         2 dictionary entries."
    );
    assert_eq!(dictionary_reloaded(&s), "Reloaded 2 dictionary entries.");
    assert_eq!(
        selftest(true, &s),
        [
            "saved: true",
            "entries now on disk: 2",
            "  \"dddm\" -> \"DDDM\"",
            "  \"lift off\" -> \"Lift-Off\"",
        ]
    );
}
