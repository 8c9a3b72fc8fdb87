//! Microphone capture on Wayland desktops.

pub use crate::audio::{Capture, CaptureStats, TARGET_SR};

use vstd::prelude::*;

verus! {

/// Opens the microphone. There is no backend for it yet, so this is always
/// refused.
pub fn open() -> (r: Result<Capture, String>)
    ensures
        r matches Err(e) && e@ == "audio capture not implemented on this platform yet"@,
{
    Err("audio capture not implemented on this platform yet".to_owned())
}

} // verus!
