//! Hyprland session management: the data model of a captured session, the
//! rules that decide what is saved and how it is restored, and the parsers
//! for what Hyprland, systemd and desktop entries report.
pub mod text;
pub mod error;
pub mod types;
pub mod hyprland;
pub mod config;
pub mod walker;
pub mod json;
pub mod systemd;
pub mod uwsm;
pub mod session;
pub mod session_laws;
pub mod tui;
pub mod restore_tui;
pub mod daemon;
