//! Configuration: the INI document, its settings and the files that hold it.

pub mod bindings;
pub mod defaults;
pub mod document;
pub mod encoding;
pub mod file_identity;
pub mod hotkey;
pub mod hotkey_words;
pub mod logging;
pub mod merge;
pub mod message_texts;
pub mod messages;
pub mod metadata;
pub mod overrides;
pub mod parsers;
pub mod reasons;
pub mod reload;
pub mod retention;
pub mod schema;
pub mod search;
pub mod settings;
pub mod single_settings;
pub mod stability;
pub mod storage;
pub mod template;
pub mod transaction;
pub mod types;
pub mod validation;
pub mod watch;
pub mod watch_state;
pub mod words;
