use flow::inject::{
    after_try, clipboard_text, clipboard_units, held_modifiers, insert, paste_strokes, Mode,
    Opening, Plan, Stroke, Typing, VK_CONTROL, VK_LCONTROL, VK_MENU, VK_RCONTROL, VK_V,
};
use flow::paste::{clipboard_entries, Answer, Ask, Entry, Format, Paste, PRIVATE_FORMATS};
use flow::platform::linux;
use flow::utf16::{decode, encode};

#[test]
fn names_choose_the_way_in() {
    assert_eq!(Mode::from_name("Type"), Mode::Type);
    assert_eq!(Mode::from_name("keystrokes"), Mode::Type);
    assert_eq!(Mode::from_name("anything"), Mode::Paste);
    assert_eq!((Mode::Paste.name(), Mode::Type.name()), ("paste", "type"));
    assert_eq!(linux::inject::Mode::from_name("PASTE"), linux::inject::Mode::Paste);
    assert_eq!(linux::inject::Mode::from_name("clipboard"), linux::inject::Mode::Paste);
    assert_eq!(linux::inject::Mode::from_name("anything"), linux::inject::Mode::Type);
}

#[test]
fn nothing_is_inserted_for_nothing() {
    assert_eq!(insert("", Mode::Paste), Plan::Nothing);
    assert_eq!(insert("x", Mode::Paste), Plan::Paste);
    assert_eq!(insert("x", Mode::Type), Plan::Type);
    assert_eq!(linux::inject::insert("", linux::inject::Mode::Type), Plan::Nothing);
    assert_eq!(linux::inject::insert("x", linux::inject::Mode::Type), Plan::Type);
    assert_eq!(linux::inject::insert("x", linux::inject::Mode::Paste), Plan::Paste);
}

#[test]
fn unicode_survives_the_clipboard() {
    for text in ["clipboard contents the user cared about", "Naïve café — 42 £ ✓ 日本語", "😀 a", ""] {
        let units = clipboard_units(text);
        let expected: Vec<u16> = text.encode_utf16().chain([0]).collect();
        assert_eq!(units, expected);
        assert_eq!(clipboard_text(&units), text);
    }
    assert_eq!(clipboard_text(&[65, 66]), "AB");
    assert_eq!(clipboard_text(&[65, 0, 66]), "A");
}

#[test]
fn broken_pairs_are_replaced() {
    let cases: [&[u16]; 6] = [
        &[0xD800],
        &[0xDC00, 65],
        &[0xD83D, 0xDE00],
        &[0xD83D, 65, 0xDE00],
        &[0xD800, 0xD83D, 0xDE00],
        &[0xDBFF, 0xDFFF, 0xE000, 0xFFFF],
    ];
    for units in cases {
        assert_eq!(decode(units), String::from_utf16_lossy(units));
    }
    assert_eq!(encode("\u{10FFFF}\u{FFFF}"), [0xDBFF, 0xDFFF, 0xFFFF]);
}

#[test]
fn held_modifiers_are_lifted_and_put_back() {
    assert_eq!(held_modifiers([-32768, 0, 1, -1]), [VK_RCONTROL, VK_MENU]);
    assert!(held_modifiers([0, 1, 2, 3]).is_empty());
    let s = |vk, up| Stroke { vk, up };
    assert_eq!(
        paste_strokes(&[VK_LCONTROL]),
        [
            s(VK_LCONTROL, true),
            s(VK_CONTROL, false),
            s(VK_V, false),
            s(VK_V, true),
            s(VK_CONTROL, true),
            s(VK_LCONTROL, false),
        ]
    );
}

fn named(entries: &[Entry]) -> Vec<(&str, &[u16])> {
    entries
        .iter()
        .map(|e| match e.format {
            Format::Text => ("text", e.units.as_slice()),
            Format::Named(name) => (name, e.units.as_slice()),
        })
        .collect()
}

#[test]
fn what_is_dictated_is_marked_and_what_was_there_is_not() {
    assert_eq!(
        named(&clipboard_entries("hi", true)),
        [
            ("text", &[104, 105, 0][..]),
            ("CanIncludeInClipboardHistory", &[0, 0][..]),
            ("CanUploadToCloudClipboard", &[0, 0][..]),
            ("ExcludeClipboardContentFromMonitorProcessing", &[0, 0][..]),
        ]
    );
    assert_eq!(named(&clipboard_entries("hi", false)), [("text", &[104, 105, 0][..])]);
    assert_eq!(PRIVATE_FORMATS.len(), 3);
}

/// Brings a paste to where the chord has been sent.
fn pasted(saved: Option<&str>) -> Paste {
    let mut p = Paste::new("dictated");
    assert!(matches!(p.ask(), Ask::Read));
    assert!(p.answer(Answer::Holds(saved.map(str::to_string))).is_none());
    match p.ask() {
        Ask::Write { text, entries } => {
            assert_eq!(text, "dictated");
            assert_eq!(named(&entries), named(&clipboard_entries("dictated", true)));
        }
        _ => panic!("the text goes on the clipboard"),
    }
    assert!(p.answer(Answer::Wrote(Ok(()))).is_none());
    assert!(matches!(p.ask(), Ask::Look));
    assert!(p.answer(Answer::States([-1, 0, 0, 0])).is_none());
    assert!(matches!(p.ask(), Ask::Send(s) if s == paste_strokes(&[VK_RCONTROL])));
    assert_eq!(p.answer(Answer::Sent(Ok(()))), Some(Ok(())));
    assert!(matches!(p.ask(), Ask::Pause(150)));
    assert!(p.answer(Answer::Sent(Ok(()))).is_none(), "no answer to what was asked");
    assert!(matches!(p.ask(), Ask::Pause(150)));
    assert!(p.answer(Answer::Rested).is_none());
    p
}

#[test]
fn the_clipboard_is_put_back_or_cleared() {
    let mut p = pasted(Some("old"));
    match p.ask() {
        Ask::Write { text, entries } => {
            assert_eq!(text, "old");
            assert_eq!(named(&entries), [("text", &[111, 108, 100, 0][..])]);
        }
        _ => panic!("the old text goes back"),
    }
    p.answer(Answer::Wrote(Err("busy".to_string())));
    assert!(matches!(p.ask(), Ask::End));
    let mut p = pasted(None);
    assert!(matches!(p.ask(), Ask::Empty));
    p.answer(Answer::Wrote(Ok(())));
    assert!(matches!(p.ask(), Ask::End));
}

#[test]
fn a_refused_paste_sends_nothing() {
    let mut p = Paste::new("dictated");
    p.answer(Answer::Holds(None));
    assert_eq!(p.answer(Answer::Wrote(Err("busy".to_string()))), Some(Err("busy".to_string())));
    assert!(matches!(p.ask(), Ask::End));
    let mut p = Paste::new("dictated");
    p.answer(Answer::Holds(None));
    p.answer(Answer::Wrote(Ok(())));
    p.answer(Answer::States([0; 4]));
    assert_eq!(p.answer(Answer::Sent(Err("gone".to_string()))), Some(Err("gone".to_string())));
    assert!(matches!(p.ask(), Ask::End));
}

#[test]
fn a_busy_clipboard_is_tried_again() {
    assert!(matches!(after_try(true, 1), Opening::Opened));
    assert!(matches!(after_try(false, 1), Opening::Again));
    assert!(matches!(after_try(false, 19), Opening::Again));
    assert!(matches!(after_try(false, 20), Opening::Failed(e) if e == "could not open the clipboard"));
}

#[test]
fn long_text_is_typed_in_batches() {
    let mut t = Typing::new(&"é".repeat(600));
    assert_eq!(t.strokes.len(), 1200);
    assert_eq!((t.strokes[0].unit, t.strokes[0].up), (0xE9, false));
    assert_eq!((t.strokes[1].unit, t.strokes[1].up), (0xE9, true));
    assert_eq!(t.next_batch(), Some((0, 512)));
    assert_eq!(t.batch_sent(512), Ok(()));
    assert_eq!(t.next_batch(), Some((512, 1024)));
    assert_eq!(t.batch_sent(512), Ok(()));
    assert_eq!(t.next_batch(), Some((1024, 1200)));
    assert_eq!(
        t.batch_sent(100),
        Err("SendInput was blocked, most likely by UIPI".to_string())
    );
    assert_eq!(t.batch_sent(176), Ok(()));
    assert_eq!(t.next_batch(), None);
}

#[test]
fn wayland_programs_are_reported() {
    assert_eq!(linux::inject::clipboard_text(true, "x".to_string()).as_deref(), Some("x"));
    assert_eq!(linux::inject::clipboard_text(true, String::new()), None);
    assert_eq!(linux::inject::clipboard_text(false, "x".to_string()), None);
    assert_eq!(
        linux::inject::exited("wtype", "exit status: 1", " no seat\n"),
        "wtype exited with exit status: 1: no seat"
    );
}
