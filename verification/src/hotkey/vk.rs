//! Windows virtual key codes worth binding.

use vstd::prelude::*;
use crate::control;
use crate::control::{hold_key, HoldKey};

verus! {

pub const RCONTROL: u32 = 0xA3;

pub const LCONTROL: u32 = 0xA2;

/// Right Alt.
pub const RMENU: u32 = 0xA5;

pub const RSHIFT: u32 = 0xA1;

pub const F13: u32 = 0x7C;

pub const CAPITAL: u32 = 0x14;

/// The code of a key.
pub open spec fn code(k: HoldKey) -> u32 {
    match k {
        HoldKey::RightCtrl => RCONTROL,
        HoldKey::LeftCtrl => LCONTROL,
        HoldKey::RightAlt => RMENU,
        HoldKey::RightShift => RSHIFT,
        HoldKey::F13 => F13,
        HoldKey::CapsLock => CAPITAL,
    }
}

/// The code of the key with a name.
pub fn from_name(name: &str) -> (c: Option<u32>)
    ensures
        c == (match control::key_named(name@) {
            Some(k) => Some(code(k)),
            None => None,
        }),
{
    match hold_key(name) {
        Some(HoldKey::RightCtrl) => Some(RCONTROL),
        Some(HoldKey::LeftCtrl) => Some(LCONTROL),
        Some(HoldKey::RightAlt) => Some(RMENU),
        Some(HoldKey::RightShift) => Some(RSHIFT),
        Some(HoldKey::F13) => Some(F13),
        Some(HoldKey::CapsLock) => Some(CAPITAL),
        None => None,
    }
}

} // verus!
