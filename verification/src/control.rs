//! What reaches the app from the outside: the hold key, and a control channel
//! where there is no tray menu.

use vstd::prelude::*;
use crate::chars;
use crate::chars::{str_eq, to_ascii_lowercase};

verus! {

#[derive(Debug, Clone, Copy, PartialEq, Eq, Structural)]
pub enum HotkeyEvent {
    Down,
    Up,
    /// Discard the current utterance without inserting anything.
    Cancel,
    /// Pause or resume dictation.
    Toggle,
    /// Read the settings again now.
    Reload,
    /// Print the latency report.
    Report,
    Quit,
}

/// The keys worth holding.
#[derive(Debug, Clone, Copy, PartialEq, Eq, Structural)]
pub enum HoldKey {
    RightCtrl,
    LeftCtrl,
    RightAlt,
    RightShift,
    F13,
    CapsLock,
}

/// The key that a name stands for, in any case.
pub open spec fn key_named(name: Seq<char>) -> Option<HoldKey> {
    let s = chars::ascii_lower(name);
    if s == "rightctrl"@ || s == "rctrl"@ || s == "right_control"@ {
        Some(HoldKey::RightCtrl)
    } else if s == "leftctrl"@ || s == "lctrl"@ {
        Some(HoldKey::LeftCtrl)
    } else if s == "rightalt"@ || s == "ralt"@ {
        Some(HoldKey::RightAlt)
    } else if s == "rightshift"@ || s == "rshift"@ {
        Some(HoldKey::RightShift)
    } else if s == "f13"@ {
        Some(HoldKey::F13)
    } else if s == "capslock"@ {
        Some(HoldKey::CapsLock)
    } else {
        None
    }
}

/// The key that a name stands for.
pub fn hold_key(name: &str) -> (k: Option<HoldKey>)
    ensures
        k == key_named(name@),
{
    let lower: String = to_ascii_lowercase(name);
    let s: &str = lower.as_str();
    if str_eq(s, "rightctrl") || str_eq(s, "rctrl") || str_eq(s, "right_control") {
        Some(HoldKey::RightCtrl)
    } else if str_eq(s, "leftctrl") || str_eq(s, "lctrl") {
        Some(HoldKey::LeftCtrl)
    } else if str_eq(s, "rightalt") || str_eq(s, "ralt") {
        Some(HoldKey::RightAlt)
    } else if str_eq(s, "rightshift") || str_eq(s, "rshift") {
        Some(HoldKey::RightShift)
    } else if str_eq(s, "f13") {
        Some(HoldKey::F13)
    } else if str_eq(s, "capslock") {
        Some(HoldKey::CapsLock)
    } else {
        None
    }
}

/// What stands on the cap of a key. The user is holding a physical key; the
/// label looks like the key, not like a value in a file.
pub open spec fn label_of(key: Seq<char>) -> Seq<char> {
    match key_named(key) {
        Some(HoldKey::RightCtrl) => "Ctrl"@,
        Some(HoldKey::LeftCtrl) => "Ctrl"@,
        Some(HoldKey::RightAlt) => "Alt"@,
        Some(HoldKey::RightShift) => "Shift"@,
        Some(HoldKey::CapsLock) => "Caps"@,
        Some(HoldKey::F13) => "F13"@,
        None => chars::ascii_lower(key),
    }
}

/// What stands on the cap of a key.
pub fn hotkey_label(key: &str) -> (label: String)
    ensures
        label@ == label_of(key@),
{
    match hold_key(key) {
        Some(HoldKey::RightCtrl) => "Ctrl".to_owned(),
        Some(HoldKey::LeftCtrl) => "Ctrl".to_owned(),
        Some(HoldKey::RightAlt) => "Alt".to_owned(),
        Some(HoldKey::RightShift) => "Shift".to_owned(),
        Some(HoldKey::CapsLock) => "Caps".to_owned(),
        Some(HoldKey::F13) => "F13".to_owned(),
        None => to_ascii_lowercase(key),
    }
}

} // verus!
