//! The Windows desktop.

pub mod autostart;
pub mod overlay;
pub mod paint;
pub mod sys;
pub mod target_app;
pub mod tray;
