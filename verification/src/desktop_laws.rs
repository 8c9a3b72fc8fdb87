//! What the desktops have to do with a dictation: the keys that can be held, the programs
//! that are terminals, and the keystrokes that carry a text.

use vstd::prelude::*;
use crate::chars;
use crate::control;
use crate::control::HotkeyEvent;
use crate::hotkey;
use crate::hotkey::{HookState, KeyCall};
use crate::inject;
use crate::inject::{Mode, Stroke, Typing, UnitStroke};
use crate::platform::linux;
use crate::platform::windows;
use crate::session;
use crate::session::Desktop;
use crate::settings::InsertionView;
use crate::target_app;
use crate::utf16;

verus! {

// ---- the hold key ---------------------------------------------------------------------

/// A press of the watched key is an event where it was up, and a release where it was
/// down; the messages are those of a key with or without Alt. Nothing else is heeded: not
/// another key, not a call that is to be passed on, not another message.
pub proof fn law_only_the_edges_of_the_key_count(s: HookState, c: KeyCall)
    ensures
        ({
            let (t, e) = hotkey::edge(s, c);
            let ours = c.code >= 0 && c.vk == s.key;
            &&& t.key == s.key
            &&& ours && (c.message == 0x0100 || c.message == 0x0104) ==> t.held && e == (
            if s.held {
                None
            } else {
                Some(HotkeyEvent::Down)
            })
            &&& ours && (c.message == 0x0101 || c.message == 0x0105) ==> !t.held && e == (
            if s.held {
                Some(HotkeyEvent::Up)
            } else {
                None
            })
            &&& !(ours && (c.message == 0x0100 || c.message == 0x0104 || c.message == 0x0101
                || c.message == 0x0105)) ==> t == s && e is None
        }),
{
}

/// The names of the keys that can be held, in any case, with the code that each has on
/// either desktop and what stands on its cap. No other name is known.
pub proof fn law_names_of_the_keys(name: Seq<char>)
    ensures
        ({
            let n = chars::ascii_lower(name);
            let w = session::code_on(Desktop::Windows, name);
            let l = session::code_on(Desktop::Linux, name);
            let cap = control::label_of(name);
            if n == "rightctrl"@ || n == "rctrl"@ || n == "right_control"@ {
                w == Some(0xA3u32) && l == Some(97u32) && cap == "Ctrl"@
            } else if n == "leftctrl"@ || n == "lctrl"@ {
                w == Some(0xA2u32) && l == Some(29u32) && cap == "Ctrl"@
            } else if n == "rightalt"@ || n == "ralt"@ {
                w == Some(0xA5u32) && l == Some(100u32) && cap == "Alt"@
            } else if n == "rightshift"@ || n == "rshift"@ {
                w == Some(0xA1u32) && l == Some(54u32) && cap == "Shift"@
            } else if n == "f13"@ {
                w == Some(0x7Cu32) && l == Some(183u32) && cap == "F13"@
            } else if n == "capslock"@ {
                w == Some(0x14u32) && l == Some(58u32) && cap == "Caps"@
            } else {
                w is None && l is None && cap == n
            }
        }),
{
}

// ---- terminals ------------------------------------------------------------------------

/// The programs that are terminals on either desktop before any is added.
pub proof fn law_terminals_that_are_built_in()
    ensures
        target_app::fixed(linux::target_app::DEFAULT_TERMINALS@) == seq![
            "alacritty"@,
            "kitty"@,
            "foot"@,
            "footclient"@,
            "ghostty"@,
            "com.mitchellh.ghostty"@,
            "wezterm"@,
            "org.wezfurlong.wezterm"@,
            "org.gnome.terminal"@,
            "konsole"@,
            "xterm"@,
            "urxvt"@,
            "st"@,
        ],
        target_app::fixed(windows::target_app::DEFAULT_TERMINALS@) == seq![
            "windowsterminal.exe"@,
            "wt.exe"@,
            "powershell.exe"@,
            "pwsh.exe"@,
            "cmd.exe"@,
            "conhost.exe"@,
            "openconsole.exe"@,
            "mintty.exe"@,
            "bash.exe"@,
            "git-bash.exe"@,
            "alacritty.exe"@,
            "wezterm-gui.exe"@,
            "hyper.exe"@,
            "putty.exe"@,
            "mstsc.exe"@,
        ],
{
    assert(target_app::fixed(linux::target_app::DEFAULT_TERMINALS@) =~= seq![
        "alacritty"@,
        "kitty"@,
        "foot"@,
        "footclient"@,
        "ghostty"@,
        "com.mitchellh.ghostty"@,
        "wezterm"@,
        "org.wezfurlong.wezterm"@,
        "org.gnome.terminal"@,
        "konsole"@,
        "xterm"@,
        "urxvt"@,
        "st"@,
    ]);
    assert(target_app::fixed(windows::target_app::DEFAULT_TERMINALS@) =~= seq![
        "windowsterminal.exe"@,
        "wt.exe"@,
        "powershell.exe"@,
        "pwsh.exe"@,
        "cmd.exe"@,
        "conhost.exe"@,
        "openconsole.exe"@,
        "mintty.exe"@,
        "bash.exe"@,
        "git-bash.exe"@,
        "alacritty.exe"@,
        "wezterm-gui.exe"@,
        "hyper.exe"@,
        "putty.exe"@,
        "mstsc.exe"@,
    ]);
}

/// A program is a terminal where it is built in or where it was added, in any case; adding
/// one never makes another cease to be one; and what has no name is none.
pub proof fn law_terminals_can_be_added(
    built_in: Seq<Seq<char>>,
    exe: Seq<char>,
    added: Seq<Seq<char>>,
    one_more: Seq<char>,
)
    ensures
        target_app::terminal(built_in, exe, added.push(one_more)) <==> target_app::terminal(
            built_in,
            exe,
            added,
        ) || (exe.len() > 0 && chars::lower(one_more) == exe),
        target_app::terminal(built_in, exe, Seq::empty()) <==> exe.len() > 0
            && built_in.contains(exe),
{
    let more = added.push(one_more);
    if target_app::terminal(built_in, exe, added) && !built_in.contains(exe) {
        let i = choose|i: int| 0 <= i < added.len() && chars::lower(#[trigger] added[i]) == exe;
        assert(more[i] == added[i]);
    }
    if chars::lower(one_more) == exe {
        assert(more[added.len() as int] == one_more);
    }
    if target_app::terminal(built_in, exe, more) && !built_in.contains(exe) {
        let i = choose|i: int| 0 <= i < more.len() && chars::lower(#[trigger] more[i]) == exe;
        if i < added.len() {
            assert(added[i] == more[i]);
        }
    }
}

/// What goes to a prompt goes in the way that was chosen for terminals and without its line
/// breaks; what goes elsewhere goes in the other way and as it is.
pub proof fn law_prompts_are_not_documents(
    desktop: Desktop,
    exe: Seq<char>,
    i: InsertionView,
    text: Seq<char>,
)
    ensures
        ({
            let built_in = match desktop {
                Desktop::Windows => target_app::fixed(windows::target_app::DEFAULT_TERMINALS@),
                Desktop::Linux => target_app::fixed(linux::target_app::DEFAULT_TERMINALS@),
            };
            if target_app::terminal(built_in, exe, i.terminal_apps) {
                &&& session::aimed_text(desktop, exe, i, text) == target_app::stripped(
                    text,
                    i.terminal_newline_replacement,
                )
                &&& session::aimed_mode(desktop, exe, i) == session::mode_on(
                    desktop,
                    i.terminal_mode,
                )
            } else {
                &&& session::aimed_text(desktop, exe, i, text) == text
                &&& session::aimed_mode(desktop, exe, i) == session::mode_on(desktop, i.mode)
            }
        }),
{
}

/// On Windows a text is typed where the way is named "type" or "keystrokes", in any case,
/// and pasted otherwise; on Linux it is pasted where the way is named "paste" or
/// "clipboard", and typed otherwise.
pub proof fn law_names_of_the_ways_in(name: Seq<char>)
    ensures
        ({
            let n = chars::ascii_lower(name);
            &&& session::mode_on(Desktop::Windows, name) == Mode::Type <==> n == "type"@ || n
                == "keystrokes"@
            &&& session::mode_on(Desktop::Linux, name) == Mode::Paste <==> n == "paste"@ || n
                == "clipboard"@
        }),
{
}

// ---- keystrokes -----------------------------------------------------------------------

/// The chord is Control with V, pressed in that order and let go in the other.
pub proof fn law_chord_is_control_v()
    ensures
        inject::chord() == seq![
            Stroke { vk: 0x11, up: false },
            Stroke { vk: 0x56, up: false },
            Stroke { vk: 0x56, up: true },
            Stroke { vk: 0x11, up: true },
        ],
{
}

/// Of Right Ctrl, Left Ctrl, Shift and Alt those are lifted for a paste that are down, and
/// no other key.
pub proof fn law_held_modifiers_are_those_that_are_down(states: Seq<i16>, vk: u16)
    requires
        states.len() == 4,
    ensures
        inject::down_of(inject::MODIFIERS@, states).contains(vk) <==> {
            ||| vk == 0xA3 && states[0] < 0
            ||| vk == 0xA2 && states[1] < 0
            ||| vk == 0x10 && states[2] < 0
            ||| vk == 0x12 && states[3] < 0
        },
{
    lemma_down_of(inject::MODIFIERS@, states, vk);
    let m = inject::MODIFIERS@;
    assert(m[0] == 0xA3 && m[1] == 0xA2 && m[2] == 0x10 && m[3] == 0x12);
}

proof fn lemma_down_of(keys: Seq<u16>, states: Seq<i16>, vk: u16)
    requires
        keys.len() <= states.len(),
    ensures
        inject::down_of(keys, states).contains(vk) <==> exists|k: int|
            0 <= k < keys.len() && #[trigger] keys[k] == vk && states[k] < 0,
    decreases keys.len(),
{
    let all = inject::down_of(keys, states);
    if keys.len() > 0 {
        let rest = keys.drop_last();
        let n = keys.len() - 1;
        let before = inject::down_of(rest, states);
        lemma_down_of(rest, states, vk);
        if before.contains(vk) {
            let i = before.index_of(vk);
            assert(all[i] == vk);
            let k = choose|k: int| 0 <= k < rest.len() && #[trigger] rest[k] == vk && states[k] < 0;
            assert(keys[k] == vk);
        }
        if all.contains(vk) && !before.contains(vk) {
            let i = all.index_of(vk);
            if i < before.len() {
                assert(before[i] == vk);
            }
            assert(keys[n] == vk);
        }
        if exists|k: int| 0 <= k < keys.len() && #[trigger] keys[k] == vk && states[k] < 0 {
            let k = choose|k: int| 0 <= k < keys.len() && #[trigger] keys[k] == vk && states[k] < 0;
            if k < n {
                assert(rest[k] == vk);
            } else {
                assert(all[before.len() as int] == vk);
            }
        }
    }
}

/// A text that is typed is spelled out: each of its units goes down and comes up again
/// before the next, and there is nothing else.
pub proof fn law_typing_spells_the_text(units: Seq<u16>, k: int)
    requires
        0 <= k < units.len(),
    ensures
        inject::unit_strokes(units).len() == 2 * units.len(),
        inject::unit_strokes(units)[2 * k] == (UnitStroke { unit: units[k], up: false }),
        inject::unit_strokes(units)[2 * k + 1] == (UnitStroke { unit: units[k], up: true }),
{
}

/// Keystrokes go out in batches of five hundred and twelve at most, none is left out
/// between two, and the last batch ends with the text.
pub proof fn law_batches_leave_nothing_out(t: Typing)
    requires
        t.wf(),
    ensures
        t.sent < t.strokes@.len() ==> t.sent < t.batch_end() <= t.sent + 512,
        t.batch_end() <= t.strokes@.len(),
        t.strokes@.len() - t.sent <= 512 ==> t.batch_end() == t.strokes@.len(),
        t.strokes@.len() - t.sent > 512 ==> t.batch_end() == t.sent + 512,
{
}

// ---- the clipboard --------------------------------------------------------------------

/// The text on the clipboard ends at its first zero; without one it is all there is.
pub proof fn law_clipboard_text_ends_at_a_zero(units: Seq<u16>, rest: Seq<u16>)
    requires
        !units.contains(0u16),
    ensures
        inject::before_zero(units.push(0) + rest) == units,
        inject::before_zero(units) == units,
    decreases units.len(),
{
    let all = units.push(0) + rest;
    if units.len() == 0 {
        assert(all[0] == 0);
        assert(units =~= seq![]);
    } else {
        let tail = units.drop_first();
        assert(units.contains(units[0]));
        if tail.contains(0u16) {
            let i = tail.index_of(0u16);
            assert(units[i + 1] == 0);
        }
        law_clipboard_text_ends_at_a_zero(tail, rest);
        assert(all[0] == units[0]);
        assert(all.skip(1) =~= tail.push(0) + rest);
        assert(units.skip(1) =~= tail);
        assert(seq![units[0]] + tail =~= units);
    }
}

// ---- units ----------------------------------------------------------------------------

/// A character below the ten-thousandth in base sixteen is one unit, its own number; any
/// other is a pair that splits what is left of its number into two lots of ten bits, the
/// high ones first.
pub proof fn law_units_of_a_character(s: Seq<char>, c: char)
    ensures
        (c as int) < 0x10000 ==> utf16::encoded(s.push(c)) == utf16::encoded(s).push(c as u16),
        c as int >= 0x10000 ==> {
            let e = utf16::encoded(s.push(c));
            let n = utf16::encoded(s).len() as int;
            &&& e.len() == n + 2
            &&& e.take(n) == utf16::encoded(s)
            &&& 0xD800 <= e[n] <= 0xDBFF
            &&& 0xDC00 <= e[n + 1] <= 0xDFFF
            &&& c as int == 0x10000 + (e[n] - 0xD800) * 0x400 + (e[n + 1] - 0xDC00)
        },
        utf16::encoded(Seq::empty()) == Seq::<u16>::empty(),
{
    assert(s.push(c).drop_last() =~= s);
    let e = utf16::encoded(s.push(c));
    let n = utf16::encoded(s).len() as int;
    if (c as int) < 0x10000 {
        assert(e =~= utf16::encoded(s).push(c as u16));
    } else {
        assert(e.take(n) =~= utf16::encoded(s));
        assert(e[n] == utf16::units(c)[0]);
        assert(e[n + 1] == utf16::units(c)[1]);
    }
}

/// A half of a pair that stands without the other reads as the replacement character, and
/// what follows is read on its own.
pub proof fn law_broken_pairs_are_replaced(u: u16, rest: Seq<u16>)
    ensures
        0xDC00 <= u <= 0xDFFF ==> utf16::decoded(seq![u] + rest) == seq!['\u{FFFD}']
            + utf16::decoded(rest),
        0xD800 <= u <= 0xDBFF && (rest.len() == 0 || !(0xDC00 <= rest[0] <= 0xDFFF))
            ==> utf16::decoded(seq![u] + rest) == seq!['\u{FFFD}'] + utf16::decoded(rest),
{
    let all = seq![u] + rest;
    assert(all[0] == u);
    assert(all.skip(1) =~= rest);
    if rest.len() > 0 {
        assert(all[1] == rest[0]);
    }
}

} // verus!
