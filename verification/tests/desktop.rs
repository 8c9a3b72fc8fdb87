use flow::audio::{format_is_float, Action, Capture, Format, Input, Source};
use flow::control::{hold_key, hotkey_label, HoldKey, HotkeyEvent};
use flow::hotkey::{vk, HookState, KeyCall, WM_KEYDOWN, WM_KEYUP, WM_SYSKEYDOWN, WM_SYSKEYUP};
use flow::platform::linux;
use flow::platform::windows::autostart::{enable, toggle, toggled, Flip};
use flow::platform::windows::sys::{freq, listening, WM_FLOW_WAKE};
use flow::platform::windows::tray::{menu, tip, Tray};
use flow::tray::{chosen, opens_menu, plain_menu, set_tip, TrayCommand};

#[test]
fn keys_are_known_by_name() {
    assert_eq!(vk::from_name("RightCtrl"), Some(0xA3));
    assert_eq!(vk::from_name("right_control"), Some(vk::RCONTROL));
    assert_eq!(vk::from_name("lctrl"), Some(0xA2));
    assert_eq!(vk::from_name("ralt"), Some(0xA5));
    assert_eq!(vk::from_name("rshift"), Some(0xA1));
    assert_eq!(vk::from_name("F13"), Some(0x7C));
    assert_eq!(vk::from_name("capslock"), Some(0x14));
    assert_eq!(vk::from_name("space"), None);
    assert_eq!(linux::hotkey::vk::from_name("rctrl"), Some(97));
    assert_eq!(linux::hotkey::vk::from_name("leftctrl"), Some(29));
    assert_eq!(linux::hotkey::vk::from_name("rightalt"), Some(100));
    assert_eq!(linux::hotkey::vk::from_name("rightshift"), Some(54));
    assert_eq!(linux::hotkey::vk::from_name("f13"), Some(183));
    assert_eq!(linux::hotkey::vk::from_name("CAPSLOCK"), Some(58));
    assert_eq!(linux::hotkey::vk::from_name(""), None);
    assert_eq!(hold_key("rightalt"), Some(HoldKey::RightAlt));
}

#[test]
fn a_key_cap_looks_like_the_key() {
    assert_eq!(hotkey_label("leftctrl"), "Ctrl");
    assert_eq!(hotkey_label("RightAlt"), "Alt");
    assert_eq!(hotkey_label("rshift"), "Shift");
    assert_eq!(hotkey_label("capslock"), "Caps");
    assert_eq!(hotkey_label("f13"), "F13");
    assert_eq!(hotkey_label("Pause"), "pause");
}

#[test]
fn only_the_edges_of_the_key_count() {
    let mut s = HookState::new(vk::RCONTROL);
    let call = |vk: u32, message: u32| KeyCall { code: 0, vk, message };
    assert_eq!(s.on_key(call(vk::RCONTROL, WM_KEYUP)), None);
    assert_eq!(s.on_key(call(vk::RCONTROL, WM_KEYDOWN)), Some(HotkeyEvent::Down));
    assert_eq!(s.on_key(call(vk::RCONTROL, WM_SYSKEYDOWN)), None);
    assert_eq!(s.on_key(call(vk::LCONTROL, WM_KEYUP)), None);
    assert_eq!(s.on_key(KeyCall { code: -1, vk: vk::RCONTROL, message: WM_KEYUP }), None);
    assert_eq!(s.on_key(call(vk::RCONTROL, 0x0200)), None);
    assert_eq!(s.on_key(call(vk::RCONTROL, WM_SYSKEYUP)), Some(HotkeyEvent::Up));
    s.rebind(vk::F13);
    assert_eq!(s.on_key(call(vk::RCONTROL, WM_KEYDOWN)), None);
    assert_eq!(s.on_key(call(vk::F13, WM_KEYDOWN)), Some(HotkeyEvent::Down));
}

#[test]
fn what_is_missing_on_wayland_is_refused() {
    assert_eq!(
        linux::hotkey::install(97).err().as_deref(),
        Some("hotkey listener not implemented on this platform yet")
    );
    assert_eq!(
        linux::hotkey::send_command("down"),
        Err("control socket client not implemented yet".to_string())
    );
    assert_eq!(
        linux::audio::open().err().as_deref(),
        Some("audio capture not implemented on this platform yet")
    );
}

#[test]
fn clocks_and_waits() {
    assert_eq!(linux::sys::freq(), 1_000_000_000);
    assert_eq!(linux::sys::ticks(3, 5), 3_000_000_005);
    assert_eq!(linux::sys::wait_limit(40), 40);
    assert_eq!(linux::sys::wait_limit(1 << 40), i32::MAX);
    assert_eq!((freq(0), freq(10_000_000)), (1, 10_000_000));
    assert!(listening(1) && !listening(0));
    assert_eq!(WM_FLOW_WAKE, 0x402);
}

#[test]
fn the_menu_holds_every_command() {
    let m = menu(true, false);
    let ids: Vec<usize> = m.iter().map(|i| i.id).collect();
    assert_eq!(ids, [1, 0, 3, 4, 2, 5, 0, 6]);
    assert_eq!((m[0].label, m[5].label), ("Resume dictation", "Start at login: off"));
    assert_eq!(menu(false, true)[0].label, "Pause dictation");
    assert_eq!(menu(false, true)[5].label, "Start at login: on");
    assert_eq!(chosen(1), Some(TrayCommand::Toggle));
    assert_eq!(chosen(2), Some(TrayCommand::LatencyReport));
    assert_eq!(chosen(3), Some(TrayCommand::OpenSettings));
    assert_eq!(chosen(4), Some(TrayCommand::ReloadDictionary));
    assert_eq!(chosen(5), Some(TrayCommand::ToggleAutostart));
    assert_eq!(chosen(6), Some(TrayCommand::Quit));
    assert_eq!((chosen(0), chosen(7)), (None, None));
    let plain = plain_menu(true);
    assert_eq!(plain.len(), 7);
    assert_eq!(plain[0].label, "Pause / resume dictation");
    assert!(opens_menu(0x7_0205) && opens_menu(0x0202) && !opens_menu(0x0201));
}

#[test]
fn a_click_asks_for_the_menu_once() {
    let mut t = Tray::create();
    assert!(!t.poll());
    assert!(!t.on_message(0x0401, 0x0200));
    assert!(!t.on_message(0x0400, 0x0205));
    assert!(t.on_message(0x0401, 0x1_007B));
    assert!(t.poll());
    assert!(!t.poll());
    assert_eq!(t.set_paused(true), Some("Flow: paused"));
    assert_eq!(t.set_paused(true), None);
    assert_eq!(t.set_paused(false), Some(tip(false)));
    assert_eq!(tip(false), "Flow: hold Right Ctrl to dictate");
    let mut off = Tray::disabled();
    assert!(off.on_message(0x0401, 0x0205));
    assert!(!off.poll());
    assert_eq!(off.set_paused(true), None);
    assert!(off.paused);
}

#[test]
fn a_tooltip_ends_in_a_zero() {
    let t = set_tip("Flow");
    assert_eq!(t.len(), 128);
    assert_eq!(&t[..5], &[70, 108, 111, 119, 0]);
    let long = set_tip(&"x".repeat(300));
    assert_eq!(long.len(), 128);
    assert_eq!((long[126], long[127]), (120, 0));
}

#[test]
fn starting_at_login_is_flipped() {
    assert_eq!(toggle(true), Flip::Disable);
    assert_eq!(toggle(false), Flip::Enable);
    assert_eq!(toggled(Flip::Enable, Ok(())), Ok(true));
    assert_eq!(toggled(Flip::Disable, Ok(())), Ok(false));
    assert_eq!(toggled(Flip::Disable, Err("no".to_string())), Err("no".to_string()));
    for on in [false, true] {
        let once = toggled(toggle(on), Ok(())).unwrap();
        assert_eq!((once, toggled(toggle(once), Ok(())).unwrap()), (!on, on));
    }
    let expected: Vec<u16> = "\"C:\\Program Files\\flow.exe\"".encode_utf16().chain([0]).collect();
    assert_eq!(enable("C:\\Program Files\\flow.exe"), expected);
}

#[test]
fn the_microphone_follows_the_key() {
    let mut c = Capture::open(Format { channels: 2, is_float: true, bits: 32 });
    assert_eq!(c.action(), Action::Wait);
    c.step(Input::Woken { shutdown: false, armed: false });
    assert_eq!(c.action(), Action::Wait);
    c.step(Input::Woken { shutdown: false, armed: true });
    assert_eq!(c.action(), Action::ResetAndStart);
    c.step(Input::Started { ok: true, reset_us: 3, start_us: 4 });
    assert_eq!((c.stats.last_reset_us, c.stats.last_start_us), (3, 4));
    assert_eq!(c.action(), Action::NextPacket);
    c.step(Input::Packet(Some(480)));
    assert_eq!(c.action(), Action::GetBuffer);
    c.step(Input::Buffer { ok: true, frames: 480, flags: 1, missing: false });
    assert_eq!(c.action(), Action::Deliver { source: Source::Float, samples: 960 });
    assert_eq!((c.stats.packets, c.stats.glitches), (1, 1));
    c.step(Input::Delivered);
    c.step(Input::Packet(Some(0)));
    assert_eq!(c.action(), Action::Wait);
    c.step(Input::Woken { shutdown: false, armed: false });
    assert_eq!(c.action(), Action::Stop);
    c.step(Input::Stopped);
    assert!(!c.running);
    c.step(Input::Woken { shutdown: true, armed: true });
    assert_eq!(c.action(), Action::End);
}

#[test]
fn device_failures_are_counted() {
    let mut c = Capture::open(Format { channels: 1, is_float: false, bits: 16 });
    c.step(Input::Woken { shutdown: false, armed: true });
    c.step(Input::Started { ok: false, reset_us: 0, start_us: 0 });
    assert_eq!((c.stats.device_errors, c.running), (1, false));
    c.step(Input::Woken { shutdown: false, armed: true });
    c.step(Input::Started { ok: true, reset_us: 0, start_us: 0 });
    c.step(Input::Packet(None));
    assert_eq!(c.stats.device_errors, 2);
    c.step(Input::Woken { shutdown: false, armed: true });
    c.step(Input::Packet(Some(1)));
    c.step(Input::Buffer { ok: false, frames: 0, flags: 0, missing: true });
    assert_eq!(c.stats.device_errors, 3);
    c.step(Input::Woken { shutdown: true, armed: true });
    assert_eq!(c.action(), Action::Stop);
    c.step(Input::Stopped);
    assert_eq!(c.action(), Action::End);
}

#[test]
fn packets_are_read_as_their_format_says() {
    let source = |is_float, bits, flags, missing| {
        let mut c = Capture::open(Format { channels: 1, is_float, bits });
        c.step(Input::Woken { shutdown: false, armed: true });
        c.step(Input::Started { ok: true, reset_us: 0, start_us: 0 });
        c.step(Input::Packet(Some(1)));
        c.step(Input::Buffer { ok: true, frames: 1, flags, missing });
        match c.action() {
            Action::Deliver { source, .. } => source,
            _ => panic!("a packet is delivered"),
        }
    };
    assert_eq!(source(true, 32, 0, false), Source::Float);
    assert_eq!(source(false, 32, 1, false), Source::Int32);
    assert_eq!(source(false, 16, 0, false), Source::Int16);
    assert_eq!(source(true, 16, 0, false), Source::Int16);
    assert_eq!(source(false, 24, 0, false), Source::Silence);
    assert_eq!(source(true, 32, 2, false), Source::Silence);
    assert_eq!(source(true, 32, 0, true), Source::Silence);
    assert!(format_is_float(3, 0) && format_is_float(0xFFFE, 3));
    assert!(!format_is_float(1, 3) && !format_is_float(0xFFFE, 1));
}
