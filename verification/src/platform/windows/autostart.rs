//! Start with Windows, off by default and toggled from the tray.

use vstd::prelude::*;
use crate::chars::push_str;
use crate::utf16;
use crate::utf16::encode;

verus! {

/// What flipping the setting takes.
#[derive(Clone, Copy, PartialEq, Eq, Debug, Structural)]
pub enum Flip {
    Enable,
    Disable,
}

/// What flipping the setting takes, given whether it is on.
pub open spec fn flip_for(enabled: bool) -> Flip {
    if enabled {
        Flip::Disable
    } else {
        Flip::Enable
    }
}

/// What flipping the setting takes, given whether it is on.
pub fn toggle(enabled: bool) -> (f: Flip)
    ensures
        f == flip_for(enabled),
{
    if enabled {
        Flip::Disable
    } else {
        Flip::Enable
    }
}

/// What a flip came to: the new state, or why it could not be reached.
pub open spec fn came_to(flip: Flip, outcome: Result<(), String>) -> Result<bool, String> {
    match outcome {
        Ok(_) => Ok(flip == Flip::Enable),
        Err(e) => Err(e),
    }
}

/// What a flip came to: the new state, or why it could not be reached.
pub fn toggled(flip: Flip, outcome: Result<(), String>) -> (r: Result<bool, String>)
    ensures
        r == came_to(flip, outcome),
{
    match outcome {
        Ok(_) => Ok(flip == Flip::Enable),
        Err(e) => Err(e),
    }
}

/// Whether the entry that starts the program at login is there after a flip: enabling
/// writes it, disabling deletes it, and a flip that failed leaves it as it was.
pub open spec fn entry_after(entry: bool, flip: Flip, outcome: Result<(), String>) -> bool {
    match outcome {
        Ok(_) => flip == Flip::Enable,
        Err(_) => entry,
    }
}

/// What is said of a flip is how the entry stands: the opposite of what it was where the
/// flip is said to have worked, and unchanged, with the reason, where it is not.
pub proof fn law_flip_says_how_the_entry_stands(entry: bool, outcome: Result<(), String>)
    ensures
        ({
            let flip = flip_for(entry);
            match came_to(flip, outcome) {
                Ok(on) => on == !entry && entry_after(entry, flip, outcome) == on,
                Err(e) => outcome == Err::<(), String>(e) && entry_after(entry, flip, outcome)
                    == entry,
            }
        }),
{
}

/// Two flips that worked leave the entry as it was.
pub proof fn law_flipping_twice_changes_nothing(
    entry: bool,
    one: Result<(), String>,
    two: Result<(), String>,
)
    requires
        one is Ok,
        two is Ok,
    ensures
        ({
            let between = entry_after(entry, flip_for(entry), one);
            entry_after(between, flip_for(between), two) == entry
        }),
{
}

/// The command that is run at login: the path of the program in quotes, since
/// it holds spaces on any normal installation.
pub open spec fn command(exe: Seq<char>) -> Seq<char> {
    "\""@ + exe + "\""@
}

/// The command as the registry holds it: its units and a zero.
pub fn enable(exe: &str) -> (units: Vec<u16>)
    ensures
        units@ == utf16::encoded(command(exe@)).push(0),
{
    let mut text: String = "\"".to_owned();
    push_str(&mut text, exe);
    push_str(&mut text, "\"");
    let mut units: Vec<u16> = encode(text.as_str());
    units.push(0);
    units
}

} // verus!
