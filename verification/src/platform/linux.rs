//! The Wayland desktop.

pub mod audio;
pub mod hotkey;
pub mod inject;
pub mod overlay;
pub mod sys;
pub mod target_app;
