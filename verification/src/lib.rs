//! The switch engine of a window switcher: it reads hotkey gestures from raw
//! key events, groups the windows that can be switched to by their
//! application, and decides which window a press activates, so that repeated
//! presses walk through a stable order while the modifier is held.
//!
//! Everything here works on plain values. Reading the system's windows,
//! installing hooks and drawing are the caller's part: the caller hands in
//! what it has read and does what the library decides.
pub mod config;
pub mod cycle;
pub mod dispatch;
pub mod foreground;
pub mod groups;
pub mod icons;
pub mod keyboard;
pub mod ordered;
pub mod painter;
pub mod startup;
pub mod switcher;
pub mod text;
pub mod traversal;
pub mod utils;
pub mod window;
