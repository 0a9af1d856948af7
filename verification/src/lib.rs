//! Random multi-play library planner: picks titles, keeps history / blacklist /
//! favorites, lays out a player grid and drives the play-session state machine.

pub mod blacklist;
pub mod brand;
pub mod config;
pub mod favorites;
pub mod flags;
pub mod history;
pub mod index_cache;
pub mod library;
pub mod panel;
pub mod pathname;
pub mod pathset;
pub mod picker;
pub mod potplayer;
pub mod session;
pub mod session_favorites;
pub mod session_launch;
pub mod session_laws;
pub mod session_mode;
pub mod session_play;
pub mod session_scan;
pub mod session_slate;
pub mod text;
pub mod thumb;
pub mod tiler;
pub mod tray;
pub mod tree_sig;
