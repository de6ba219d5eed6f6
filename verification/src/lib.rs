//! Clipboard history: which clipboard content is captured, how it is stored,
//! ranked, searched, pinned and dropped, and what the service and the windows show
//! of it.
//!
//! The history is the table of an SQLite database. What each statement does to its
//! rows is stated in [`sqlite`]; everything else is proved from there.

pub mod crypto;
pub mod dbus;
pub mod decimal;
pub mod gui;
pub mod history;
pub mod laws;
pub mod like;
pub mod model;
pub mod paths;
pub mod popup;
pub mod prefs;
pub mod settings;
pub mod sqlite;
pub mod store;
pub mod text;
