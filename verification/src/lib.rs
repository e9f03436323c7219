//! Synchronized lyrics overlay for the desktop: the logic behind it.

pub mod cli;
pub mod desktop;
pub mod i18n;
pub mod log;
pub mod lyrics;
pub mod mpris;
pub mod preferences;
pub mod screen;
pub mod store;
pub mod sync;
pub mod text;
pub mod time;
pub mod tray;
pub mod update;
pub mod webview;
pub mod worker;
