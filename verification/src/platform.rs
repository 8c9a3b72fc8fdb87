//! What differs between the two desktops.

pub mod linux;
pub mod windows;
