//! The tray icon and its menu on Windows.
//!
//! A click only notes that the menu was asked for. The menu is shown from the
//! message loop, because it does not return until the user has chosen, and a
//! callback must not hold up the keyboard hook.

use vstd::prelude::*;
use crate::tray;
pub use crate::tray::TrayCommand;
use crate::tray::{
    autostart_text, item, separator, MenuItem, ID_AUTOSTART, ID_NONE, ID_QUIT, ID_RELOAD,
    ID_REPORT, ID_SETTINGS, ID_TOGGLE,
};

verus! {

pub const WM_TRAY: u32 = 0x0401;

pub const WM_RBUTTONUP: u32 = 0x0205;

pub const WM_LBUTTONUP: u32 = 0x0202;

pub const WM_CONTEXTMENU: u32 = 0x007B;

/// What the tray knows.
#[derive(Clone, Copy, PartialEq, Eq, Debug, Structural)]
pub struct Tray {
    /// Whether there is an icon. Without one dictation goes on.
    pub present: bool,
    pub paused: bool,
    /// Whether a click asked for the menu.
    pub menu_requested: bool,
}

/// What the tooltip says.
pub open spec fn tip_text(paused: bool) -> Seq<char> {
    if paused {
        "Flow: paused"@
    } else {
        "Flow: hold Right Ctrl to dictate"@
    }
}

/// What the tooltip says.
pub fn tip(paused: bool) -> (s: &'static str)
    ensures
        s@ == tip_text(paused),
{
    if paused {
        "Flow: paused"
    } else {
        "Flow: hold Right Ctrl to dictate"
    }
}

/// A message asks for the menu: it comes from the icon and is a click, its kind
/// in the low half of the parameter.
pub open spec fn asks_for_menu(message: u32, parameter: u32) -> bool {
    let event = parameter % 0x10000;
    message == WM_TRAY && (event == WM_RBUTTONUP || event == WM_LBUTTONUP || event
        == WM_CONTEXTMENU)
}

impl Tray {
    /// A tray that does nothing, for when the shell will not cooperate.
    pub fn disabled() -> (t: Tray)
        ensures
            t == (Tray { present: false, paused: false, menu_requested: false }),
    {
        Tray { present: false, paused: false, menu_requested: false }
    }

    /// A tray whose icon has been added.
    pub fn create() -> (t: Tray)
        ensures
            t == (Tray { present: true, paused: false, menu_requested: false }),
    {
        Tray { present: true, paused: false, menu_requested: false }
    }

    /// Notes whether dictation is paused. Gives the new tooltip where there is an
    /// icon and the state is a new one.
    pub fn set_paused(&mut self, paused: bool) -> (t: Option<&'static str>)
        ensures
            *final(self) == (Tray { paused, ..*old(self) }),
            t is Some <==> old(self).present && old(self).paused != paused,
            t matches Some(s) ==> s@ == tip_text(paused),
    {
        if self.paused == paused {
            return None;
        }
        self.paused = paused;
        if self.present {
            Some(tip(paused))
        } else {
            None
        }
    }

    /// Takes in a message of the icon's window. Says whether it has been dealt
    /// with.
    pub fn on_message(&mut self, message: u32, parameter: u32) -> (handled: bool)
        ensures
            handled == asks_for_menu(message, parameter),
            *final(self) == (Tray {
                menu_requested: old(self).menu_requested || handled,
                ..*old(self)
            }),
    {
        let event: u32 = parameter % 0x10000;
        if message == WM_TRAY && (event == WM_RBUTTONUP || event == WM_LBUTTONUP || event
            == WM_CONTEXTMENU) {
            self.menu_requested = true;
            true
        } else {
            false
        }
    }

    /// Whether the menu is to be shown now. The request is dealt with either way.
    pub fn poll(&mut self) -> (show: bool)
        ensures
            show == (old(self).menu_requested && old(self).present),
            *final(self) == (Tray { menu_requested: false, ..*old(self) }),
    {
        let requested: bool = self.menu_requested;
        self.menu_requested = false;
        requested && self.present
    }
}

/// The lines of the menu.
pub open spec fn menu_lines(paused: bool, autostart: bool) -> Seq<(usize, Seq<char>)> {
    seq![
        (
            ID_TOGGLE,
            if paused {
                "Resume dictation"@
            } else {
                "Pause dictation"@
            },
        ),
        (ID_NONE, ""@),
        (ID_SETTINGS, "Open settings"@),
        (ID_RELOAD, "Reload dictionary"@),
        (ID_REPORT, "Latency report"@),
        (ID_AUTOSTART, tray::autostart_label(autostart)),
        (ID_NONE, ""@),
        (ID_QUIT, "Quit Flow"@),
    ]
}

/// The menu, top to bottom.
pub fn menu(paused: bool, autostart: bool) -> (items: Vec<MenuItem>)
    ensures
        tray::menu_view(items@) == menu_lines(paused, autostart),
{
    let mut items: Vec<MenuItem> = Vec::new();
    items.push(
        item(
            ID_TOGGLE,
            if paused {
                "Resume dictation"
            } else {
                "Pause dictation"
            },
        ),
    );
    items.push(separator());
    items.push(item(ID_SETTINGS, "Open settings"));
    items.push(item(ID_RELOAD, "Reload dictionary"));
    items.push(item(ID_REPORT, "Latency report"));
    items.push(item(ID_AUTOSTART, autostart_text(autostart)));
    items.push(separator());
    items.push(item(ID_QUIT, "Quit Flow"));
    assert(tray::menu_view(items@) =~= menu_lines(paused, autostart));
    items
}

/// Every command stands in the menu exactly once, whatever the state.
pub proof fn law_every_command_is_in_the_menu(paused: bool, autostart: bool, c: TrayCommand)
    ensures
        exists|i: int|
            0 <= i < 8 && (#[trigger] menu_lines(paused, autostart)[i]).0 == tray::id_of(c),
        forall|i: int, j: int|
            0 <= i < 8 && 0 <= j < 8 && (#[trigger] menu_lines(paused, autostart)[i]).0
                == tray::id_of(c) && (#[trigger] menu_lines(paused, autostart)[j]).0
                == tray::id_of(c) ==> i == j,
{
    let m = menu_lines(paused, autostart);
    let k: int = match c {
        TrayCommand::Toggle => 0,
        TrayCommand::OpenSettings => 2,
        TrayCommand::ReloadDictionary => 3,
        TrayCommand::LatencyReport => 4,
        TrayCommand::ToggleAutostart => 5,
        TrayCommand::Quit => 7,
    };
    assert(m[k].0 == tray::id_of(c));
}

} // verus!
