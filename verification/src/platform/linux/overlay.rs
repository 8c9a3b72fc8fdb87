//! The status pill on Wayland desktops.

pub use crate::overlay_model::{OverlayState, LISTENING_TICK};

use vstd::prelude::*;

verus! {

/// A pill that is never seen.
pub struct Overlay;

impl Overlay {
    /// A pill that draws nothing: dictation goes on without it.
    pub fn disabled() -> Overlay {
        Overlay
    }

    /// Makes the pill. There is no surface for it yet, so this is always refused.
    pub fn create(_hint_key: &str) -> (r: Result<Overlay, String>)
        ensures
            r matches Err(e) && e@ == "overlay not implemented on this platform yet"@,
    {
        Err("overlay not implemented on this platform yet".to_owned())
    }

    pub fn is_visible(&self) -> (r: bool)
        ensures
            !r,
    {
        false
    }

    pub fn is_drawable(&self) -> (r: bool)
        ensures
            !r,
    {
        false
    }

    /// How long to wait before the next step of the animation: there is none.
    pub fn tick(&self) -> (next: Option<u64>)
        ensures
            next is None,
    {
        None
    }
}

} // verus!
