//! Gesture TimeTrack: time tracking driven by hand gestures.
//!
//! The library holds the tracking state machine, the data model of the
//! database, the translations, the parsing of camera streams and the small
//! text rules the application depends on. Everything that talks to the
//! operating system (windows, tray, files, network, SQLite) lives around it.

pub mod camera;
pub mod clock;
pub mod commands;
pub mod db;
pub mod error;
pub mod export;
pub mod shortcut;
pub mod i18n;
pub mod order;
pub mod state;
pub mod text;
pub mod tray;
