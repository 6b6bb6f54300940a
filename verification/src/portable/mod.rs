//! Everything that decides what Discord shows, with no platform call in it.

pub mod apple_music;
pub mod backoff;
pub mod debouncer;
pub mod i18n;
pub mod models;
pub mod settings_model;
pub mod text;
pub mod timers;
pub mod aumid;
pub mod source_selector;
pub mod track_change;
pub mod track_metadata;
pub mod format_time;
pub mod status_lines;
pub mod activity_builder;
pub mod presence;
pub mod itunes;
pub mod menu_model;
pub mod update_check;
pub mod url_prompt;
