use flow::asr::{ARCH_MEDIUM_STREAMING, ARCH_SMALL_STREAMING, ARCH_TINY_STREAMING};
use flow::dictionary::Dictionary;
use flow::settings::{commented, Formatting, Found, ModelDir, Settings};
use flow::settings_ui::{
    collect, dictionary_to_text, fill_combo, place, press, rows, show, test_roundtrip,
    text_to_dictionary, Kind, Measures, Opening, Press, SettingsWindow, HOTKEYS, MODES,
};

fn dictionary(entries: &[(&str, &str)]) -> Dictionary {
    let mut d = Dictionary::new();
    for (k, v) in entries {
        d.insert(k.to_string(), v.to_string());
    }
    d
}

#[test]
fn defaults_are_ready_to_dictate() {
    let s = Settings::default();
    assert_eq!(s.hotkey.key, "rightctrl");
    assert_eq!(s.model.profile, "balanced");
    assert_eq!(s.model.dir, "");
    assert_eq!((s.model.partial_cadence_ms, s.model.release_tail_ms), (250, 15));
    assert!(!s.model.force_partials && s.model.single_thread);
    assert_eq!(s.model.keyterm_boost, "2");
    assert_eq!(s.insertion.mode, "paste");
    assert_eq!(s.insertion.terminal_mode, "type");
    assert!(s.insertion.terminal_apps.is_empty());
    assert_eq!(s.insertion.terminal_newline_replacement, " ");
    assert_eq!(
        s.formatting,
        Formatting { capitalise_sentences: true, spoken_punctuation: true, trailing_space: true }
    );
    assert!(s.dictionary.is_empty());
}

#[test]
fn a_file_never_stops_the_app() {
    let path = "settings.toml";
    assert_eq!(Settings::load(path, Found::Missing(Ok(()))).1, None);
    assert_eq!(
        Settings::load(path, Found::Missing(Err("denied".to_string()))).1.as_deref(),
        Some("could not write settings.toml: denied")
    );
    assert_eq!(
        Settings::load(path, Found::Unreadable("locked".to_string())).1.as_deref(),
        Some("could not read settings.toml: locked")
    );
    let (s, said) = Settings::load(path, Found::Invalid("line 3".to_string()));
    assert_eq!(said.as_deref(), Some("settings.toml is not valid: line 3"));
    assert_eq!(s.hotkey.key, "rightctrl");
    let mut read = Settings::default();
    read.hotkey.key = "f13".to_string();
    let (s, said) = Settings::load(path, Found::Read(read));
    assert_eq!((s.hotkey.key.as_str(), said), ("f13", None));
}

fn resolved(profile: &str, dir: &str) -> (String, u32) {
    let mut s = Settings::default();
    s.model.profile = profile.to_string();
    s.model.dir = dir.to_string();
    match s.resolve_model() {
        (ModelDir::Custom(d), a) => (format!("custom {d}"), a),
        (ModelDir::Bundled(d), a) => (d.to_string(), a),
    }
}

#[test]
fn profiles_name_models() {
    assert_eq!(resolved("Fast", ""), ("tiny-streaming-en".to_string(), ARCH_TINY_STREAMING));
    assert_eq!(resolved("tiny", ""), ("tiny-streaming-en".to_string(), ARCH_TINY_STREAMING));
    assert_eq!(resolved("accurate", "").1, ARCH_MEDIUM_STREAMING);
    assert_eq!(resolved("MEDIUM", "").0, "medium-streaming-en");
    assert_eq!(resolved("balanced", "").0, "small-streaming-en");
    assert_eq!(resolved("whatever", "").1, ARCH_SMALL_STREAMING);
    assert_eq!(resolved("fast", "/m/medium"), ("custom /m/medium".to_string(), ARCH_MEDIUM_STREAMING));
    assert_eq!(resolved("fast", "/m/tiny-medium").1, ARCH_TINY_STREAMING);
    assert_eq!(resolved("fast", "/m/x").1, ARCH_SMALL_STREAMING);
}

#[test]
fn knobs_come_from_the_settings() {
    let mut s = Settings::default();
    s.model.partial_cadence_ms = 1;
    s.model.force_partials = true;
    s.model.release_tail_ms = 2;
    let c = s.config();
    assert_eq!((c.partial_cadence_ms, c.force_partials, c.release_tail_ms), (1, true, 2));
}

#[test]
fn a_written_file_explains_itself() {
    let text = commented("[hotkey]\n");
    assert!(text.starts_with("# Flow settings. Edit and choose Reload settings from the tray menu.\n#\n# hotkey.key "));
    assert!(text.contains("#   \"lift off\" = \"Lift-Off\"\n"));
    assert!(text.ends_with("\n\n[hotkey]\n"));
}

#[test]
fn dictionary_round_trips() {
    let text = "lift off = Lift-Off\r\ndddm = DDDM";
    let map = text_to_dictionary(text);
    assert_eq!(map.get("lift off").map(String::as_str), Some("Lift-Off"));
    assert_eq!(map.get("dddm").map(String::as_str), Some("DDDM"));
    assert_eq!(map.len(), 2);
}

#[test]
fn quotes_and_blank_lines_are_tolerated() {
    let map = text_to_dictionary("\n  \"lift off\" = \"Lift-Off\"  \n\n# a note\n");
    assert_eq!(map.len(), 1);
    assert_eq!(map.get("lift off").map(String::as_str), Some("Lift-Off"));
}

#[test]
fn empty_sides_are_rejected() {
    let map = text_to_dictionary(" = Lift-Off\nfoo =\n");
    assert!(map.is_empty());
}

#[test]
fn a_bare_term_is_keyed_on_how_it_is_said() {
    let map = text_to_dictionary("Lift-Off Consulting\nA/B_test\n\"Éclair\"");
    assert_eq!(map.get("lift off consulting").map(String::as_str), Some("Lift-Off Consulting"));
    assert_eq!(map.get("a b test").map(String::as_str), Some("A/B_test"));
    assert_eq!(map.get("éclair").map(String::as_str), Some("Éclair"));
}

#[test]
fn a_dictionary_is_shown_in_order_and_read_back() {
    let d = dictionary(&[("zeta", "Z"), ("alpha", "A = a"), ("alp", "x"), ("éclair", "É")]);
    let text = dictionary_to_text(&d);
    assert_eq!(text, "alp = x\r\nalpha = A = a\r\nzeta = Z\r\néclair = É");
    let back = text_to_dictionary(&text);
    assert_eq!(back.len(), 4);
    assert_eq!(back.get("alpha").map(String::as_str), Some("A = a"));
    assert_eq!(dictionary_to_text(&back), text);
}

#[test]
fn saving_untouched_changes_nothing() {
    let mut s = Settings::default();
    s.hotkey.key = "F13".to_string();
    s.model.profile = "fast".to_string();
    s.model.partial_cadence_ms = 4321;
    s.model.keyterm_boost = "3.5".to_string();
    s.formatting.trailing_space = false;
    s.insertion.mode = "type".to_string();
    s.insertion.terminal_apps = vec!["x".to_string()];
    s.dictionary = dictionary(&[("dddm", "DDDM")]);
    let form = show(&s);
    assert_eq!((form.hotkey, form.profile, form.insert, form.terminal), (Some(5), Some(1), Some(1), Some(1)));
    assert_eq!((form.cadence.as_str(), form.tail.as_str()), ("4321", "15"));
    let (r, said) = collect(s, &form);
    assert_eq!(said, None);
    assert_eq!(r.hotkey.key, "f13");
    assert_eq!(r.model.profile, "fast");
    assert_eq!((r.model.partial_cadence_ms, r.model.release_tail_ms), (4321, 15));
    assert_eq!(r.model.keyterm_boost, "3.5");
    assert!(!r.formatting.trailing_space);
    assert_eq!(r.insertion.mode, "type");
    assert_eq!(r.insertion.terminal_apps, ["x"]);
    assert_eq!(r.dictionary.get("dddm").map(String::as_str), Some("DDDM"));
}

#[test]
fn a_half_typed_number_changes_nothing_and_a_large_one_is_cut() {
    let mut form = show(&Settings::default());
    form.cadence = " 99999 ".to_string();
    form.tail = "12x".to_string();
    form.boost = None;
    form.hotkey = None;
    form.profile = Some(9);
    form.dictionary = "a = 1\na = 2\n# note\n = 3".to_string();
    let (r, said) = collect(Settings::default(), &form);
    assert_eq!((r.model.partial_cadence_ms, r.model.release_tail_ms), (5000, 15));
    assert_eq!(r.model.keyterm_boost, "2");
    assert_eq!((r.hotkey.key.as_str(), r.model.profile.as_str()), ("rightctrl", "balanced"));
    assert_eq!(said.as_deref(), Some("dictionary: kept 1 of 3 lines"));
    form.tail = "501".to_string();
    form.cadence = "99999999999999999999".to_string();
    let (r, _) = collect(Settings::default(), &form);
    assert_eq!((r.model.partial_cadence_ms, r.model.release_tail_ms), (250, 500));
}

#[test]
fn typing_a_dictionary_saves_it() {
    let r = test_roundtrip(Settings::default(), "lift off = Lift-Off");
    assert_eq!(r.dictionary.get("lift off").map(String::as_str), Some("Lift-Off"));
    assert_eq!(r.dictionary.len(), 1);
}

#[test]
fn choices_are_known_by_name_in_any_case() {
    assert_eq!(fill_combo(&HOTKEYS, "CapsLock"), 3);
    assert_eq!(fill_combo(&HOTKEYS, "nothing"), 0);
    assert_eq!(fill_combo(&MODES, "TYPE"), 1);
}

#[test]
fn the_window_remembers_that_it_was_saved() {
    let mut w = SettingsWindow::new();
    assert_eq!(w.open(), Opening::Create);
    w.created();
    assert!(w.is_open());
    assert_eq!(w.open(), Opening::BringForward);
    assert_eq!(
        w.written(Err("disk".to_string())).as_deref(),
        Some("could not save settings: disk")
    );
    assert!(!w.take_saved());
    assert_eq!(w.written(Ok(())), None);
    assert!(w.take_saved());
    assert!(!w.take_saved());
    w.destroyed();
    assert!(!w.is_open());
}

#[test]
fn buttons_are_told_apart() {
    assert_eq!(press(212), Press::SaveAndClose);
    assert_eq!(press(0x1_0000 + 213), Press::Close);
    assert_eq!(press(214), Press::EditFile);
    assert_eq!(press(200), Press::Nothing);
}

#[test]
fn controls_stand_below_each_other() {
    let m = Measures {
        margin: 18,
        top: 16,
        label_width: 168,
        label_drop: 4,
        label_height: 20,
        control_width: 296,
        row_gap: 9,
        long_list: 160,
        short_list: 120,
        closed_list: 24,
        line: 22,
        area: 110,
        button_drop: 6,
        button_width: 96,
        button_height: 28,
        button_gap: 10,
        note_drop: 12,
        note_height: 34,
        foot: 14,
    };
    let list = rows(&m);
    assert_eq!(list.len(), 12);
    assert_eq!((list[0].id, list[0].label, list[0].height, list[0].advance), (200, "Hold to dictate", 160, 24));
    assert_eq!(list[2].kind, Kind::Check);
    assert_eq!(list[9].caption, "Spoken punctuation (\"comma\", \"new line\")");
    assert_eq!(list[11].label, "Dictionary\r\n(spoken = written)");
    let s = place(&m);
    assert_eq!(s.row_tops[..4], [16, 49, 82, 113]);
    assert_eq!(s.row_tops[11], 16 + 4 * 33 + 7 * 31);
    assert_eq!(s.control_left, 186);
    assert_eq!(s.buttons_top, 365 + 119 + 6);
    assert_eq!(s.button_lefts, (18, 124, 230));
    assert_eq!(s.note_top, 490 + 28 + 12);
    assert_eq!(s.client_height, 530 + 34 + 14);
}

#[test]
fn settings_can_be_copied_and_shown() {
    let mut s = Settings::default();
    s.dictionary.insert("dddm".to_string(), "DDDM".to_string());
    let mut copy = s.clone();
    assert_eq!(format!("{copy:?}"), format!("{s:?}"));
    copy.dictionary.insert("other".to_string(), "Other".to_string());
    assert_eq!((s.dictionary.len(), copy.dictionary.len()), (1, 2));
}
