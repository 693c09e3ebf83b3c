//! Incremental EWTS (Extended Wylie) composition, hotkey recognition and the
//! keyboard-hook decision logic of the Tibetan EWTS keyboard.

pub mod composition;
pub mod config;
pub mod hook;
pub mod keyboard;
pub mod matcher;
pub mod text;
pub mod tray;
pub mod updater;
