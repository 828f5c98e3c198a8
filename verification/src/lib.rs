//! Core logic of the Hush_UI shell: the Win-key gesture machine, the
//! launcher and table-picker state machines, taskbar bookkeeping, search
//! ranking, persisted configuration and the byte-level image helpers.

pub mod app_state;
pub mod text;
pub mod hotkey;
pub mod launcher;
pub mod tables;
pub mod peek;
pub mod numfmt;
pub mod persist;
pub mod order;
pub mod search;
pub mod image_data;
pub mod winrules;
pub mod http;
pub mod crash;
pub mod system;
pub mod desktop;
pub mod positions;
pub mod icon_cache;
pub mod cpu;
