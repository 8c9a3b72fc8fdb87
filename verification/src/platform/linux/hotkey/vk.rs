//! Linux input event codes worth binding.

use vstd::prelude::*;
use crate::control;
use crate::control::{hold_key, HoldKey};

verus! {

pub const RCONTROL: u32 = 97;

pub const LCONTROL: u32 = 29;

/// Right Alt.
pub const RMENU: u32 = 100;

pub const RSHIFT: u32 = 54;

pub const F13: u32 = 183;

pub const CAPITAL: u32 = 58;

/// The code of a key.
pub open spec fn code(k: HoldKey) -> u32 {
    match k {
        HoldKey::RightCtrl => RCONTROL,
        HoldKey::LeftCtrl => LCONTROL,
        HoldKey::RightAlt => RMENU,
        HoldKey::RightShift => RSHIFT,
        HoldKey::F13 => F13,
        HoldKey::CapsLock => CAPITAL,
    }
}

/// The code of the key with a name.
pub fn from_name(name: &str) -> (c: Option<u32>)
    ensures
        c == (match control::key_named(name@) {
            Some(k) => Some(code(k)),
            None => None,
        }),
{
    match hold_key(name) {
        Some(HoldKey::RightCtrl) => Some(RCONTROL),
        Some(HoldKey::LeftCtrl) => Some(LCONTROL),
        Some(HoldKey::RightAlt) => Some(RMENU),
        Some(HoldKey::RightShift) => Some(RSHIFT),
        Some(HoldKey::F13) => Some(F13),
        Some(HoldKey::CapsLock) => Some(CAPITAL),
        None => None,
    }
}

} // verus!
