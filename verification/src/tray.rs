//! The commands of the tray menu.

use vstd::prelude::*;
use crate::utf16;
use crate::utf16::encode;

verus! {

#[derive(Debug, Clone, Copy, PartialEq, Eq, Structural)]
pub enum TrayCommand {
    Toggle,
    LatencyReport,
    OpenSettings,
    ReloadDictionary,
    ToggleAutostart,
    Quit,
}

pub const ID_TOGGLE: usize = 1;

pub const ID_REPORT: usize = 2;

pub const ID_SETTINGS: usize = 3;

pub const ID_RELOAD: usize = 4;

pub const ID_AUTOSTART: usize = 5;

pub const ID_QUIT: usize = 6;

/// The number of a command in the menu.
pub open spec fn id_of(c: TrayCommand) -> usize {
    match c {
        TrayCommand::Toggle => ID_TOGGLE,
        TrayCommand::LatencyReport => ID_REPORT,
        TrayCommand::OpenSettings => ID_SETTINGS,
        TrayCommand::ReloadDictionary => ID_RELOAD,
        TrayCommand::ToggleAutostart => ID_AUTOSTART,
        TrayCommand::Quit => ID_QUIT,
    }
}

/// The command with a number. Nothing was chosen where the number is none of
/// the menu's.
pub fn chosen(id: usize) -> (c: Option<TrayCommand>)
    ensures
        match c {
            Some(k) => id == id_of(k),
            None => forall|k: TrayCommand| id != #[trigger] id_of(k),
        },
{
    if id == ID_TOGGLE {
        Some(TrayCommand::Toggle)
    } else if id == ID_REPORT {
        Some(TrayCommand::LatencyReport)
    } else if id == ID_SETTINGS {
        Some(TrayCommand::OpenSettings)
    } else if id == ID_RELOAD {
        Some(TrayCommand::ReloadDictionary)
    } else if id == ID_AUTOSTART {
        Some(TrayCommand::ToggleAutostart)
    } else if id == ID_QUIT {
        Some(TrayCommand::Quit)
    } else {
        None
    }
}

/// The number that says that nothing was chosen, and that separators have.
pub const ID_NONE: usize = 0;

/// One line of a menu: its number and its label, or a separator.
pub struct MenuItem {
    pub id: usize,
    pub label: &'static str,
}

/// The numbers and labels of a menu.
pub open spec fn menu_view(items: Seq<MenuItem>) -> Seq<(usize, Seq<char>)> {
    items.map_values(|m: MenuItem| (m.id, m.label@))
}

/// A line with a number and a label.
pub fn item(id: usize, label: &'static str) -> (m: MenuItem)
    ensures
        m.id == id,
        m.label@ == label@,
{
    MenuItem { id, label }
}

/// A separator.
pub fn separator() -> (m: MenuItem)
    ensures
        m.id == ID_NONE,
        m.label@ == ""@,
{
    MenuItem { id: ID_NONE, label: "" }
}

/// What a menu says of starting at login.
pub open spec fn autostart_label(on: bool) -> Seq<char> {
    if on {
        "Start at login: on"@
    } else {
        "Start at login: off"@
    }
}

/// What a menu says of starting at login.
pub fn autostart_text(on: bool) -> (s: &'static str)
    ensures
        s@ == autostart_label(on),
{
    if on {
        "Start at login: on"
    } else {
        "Start at login: off"
    }
}

/// How many units a tooltip holds, the zero at its end included.
pub const TIP_UNITS: usize = 128;

/// A tooltip: the first units of the text, and zeros.
pub open spec fn tip_units(text: Seq<char>) -> Seq<u16> {
    let u = utf16::encoded(text);
    Seq::new(
        128,
        |i: int|
            if i < 127 && i < u.len() {
                u[i]
            } else {
                0
            },
    )
}

/// A tooltip: as much of the text as fits before the zero at the end.
pub fn set_tip(text: &str) -> (tip: Vec<u16>)
    ensures
        tip@ == tip_units(text@),
{
    let units: Vec<u16> = encode(text);
    let mut tip: Vec<u16> = Vec::new();
    let mut i: usize = 0;
    while i < TIP_UNITS
        invariant
            i <= TIP_UNITS,
            units@ == utf16::encoded(text@),
            tip@ == tip_units(text@).take(i as int),
        decreases TIP_UNITS - i,
    {
        if i < TIP_UNITS - 1 && i < units.len() {
            tip.push(units[i]);
        } else {
            tip.push(0);
        }
        i += 1;
        assert(tip@ =~= tip_units(text@).take(i as int));
    }
    assert(tip_units(text@).take(128) =~= tip_units(text@));
    tip
}

/// A tooltip ends in a zero whatever the text.
pub proof fn law_tip_is_ended(text: Seq<char>)
    ensures
        tip_units(text).len() == TIP_UNITS,
        tip_units(text).last() == 0,
{
}

/// Whether a click on the icon opens the menu of the plain tray.
pub fn opens_menu(event: u32) -> (r: bool)
    ensures
        r == (event % 0x10000 == 0x0205 || event % 0x10000 == 0x0202),
{
    event % 0x10000 == 0x0205 || event % 0x10000 == 0x0202
}

/// The menu of a plain tray, which does not know whether dictation is paused.
pub fn plain_menu(autostart: bool) -> (items: Vec<MenuItem>)
    ensures
        menu_view(items@) == seq![
            (ID_TOGGLE, "Pause / resume dictation"@),
            (ID_REPORT, "Latency report"@),
            (ID_SETTINGS, "Open settings"@),
            (ID_RELOAD, "Reload dictionary"@),
            (ID_AUTOSTART, autostart_label(autostart)),
            (ID_NONE, ""@),
            (ID_QUIT, "Quit Flow"@),
        ],
{
    let mut items: Vec<MenuItem> = Vec::new();
    items.push(item(ID_TOGGLE, "Pause / resume dictation"));
    items.push(item(ID_REPORT, "Latency report"));
    items.push(item(ID_SETTINGS, "Open settings"));
    items.push(item(ID_RELOAD, "Reload dictionary"));
    items.push(item(ID_AUTOSTART, autostart_text(autostart)));
    items.push(separator());
    items.push(item(ID_QUIT, "Quit Flow"));
    assert(menu_view(items@) =~= seq![
        (ID_TOGGLE, "Pause / resume dictation"@),
        (ID_REPORT, "Latency report"@),
        (ID_SETTINGS, "Open settings"@),
        (ID_RELOAD, "Reload dictionary"@),
        (ID_AUTOSTART, autostart_label(autostart)),
        (ID_NONE, ""@),
        (ID_QUIT, "Quit Flow"@),
    ]);
    items
}

} // verus!
