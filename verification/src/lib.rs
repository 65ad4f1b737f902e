//! Verified core of a keyboard-shortcuts overlay for Wayland desktops.

pub mod text;
pub mod blur;
pub mod config;
pub mod keybinding_reader;
pub mod util;
pub mod singleton;
pub mod shortcut_reader;
pub mod input_listener;
pub mod overlay;
