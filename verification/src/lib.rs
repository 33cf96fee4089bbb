//! The logic of a keyboard driven window switcher.

pub mod config;
pub mod config_diagnostics;
pub mod config_file;
pub mod config_schema;
pub mod config_watcher;
pub mod diagnostics;
pub mod font_resources;
pub mod foreground;
pub mod icon_cache;
pub mod icon_loader;
pub mod keyboard;
pub mod layout;
pub mod localization;
pub mod metrics;
pub mod monitor_scope;
pub mod mru;
pub mod order;
pub mod painter;
pub mod text;
pub mod trimming;
pub mod window_identity;
