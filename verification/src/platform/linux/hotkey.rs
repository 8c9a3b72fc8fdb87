//! The hold key on Wayland, where keys reach the app through a control channel.

pub mod vk;

pub use crate::control::HotkeyEvent;

use vstd::prelude::*;

verus! {

/// A listener that runs.
pub struct Handle;

/// Starts to listen for the hold key. There is no listener yet, so this is
/// always refused.
pub fn install(_key: u32) -> (r: Result<Handle, String>)
    ensures
        r matches Err(e) && e@ == "hotkey listener not implemented on this platform yet"@,
{
    Err("hotkey listener not implemented on this platform yet".to_owned())
}

/// Delivers one command to an app that runs. There is no client yet, so this is
/// always refused.
pub fn send_command(_cmd: &str) -> (r: Result<(), String>)
    ensures
        r matches Err(e) && e@ == "control socket client not implemented yet"@,
{
    Err("control socket client not implemented yet".to_owned())
}

} // verus!
