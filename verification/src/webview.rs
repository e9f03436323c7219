//! The overlay that runs as a web view: its own lyrics format, media model,
//! compositor rules and stores.

pub mod autostart;
pub mod cover;
pub mod i18n;
pub mod log;
pub mod lyrics;
pub mod media;
pub mod now_playing;
pub mod overlay;
pub mod store;
pub mod sync;
pub mod update;
