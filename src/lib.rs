//! A small line filter: select the lines of a text that contain a pattern
//! (or do not), optionally ignoring case, numbered, or just counted.

pub mod config;
pub mod filter;
pub mod text;

pub use config::{Config, ConfigError};
pub use filter::{count_message, count_mode, matcher, output_lines, search_mode, select_folded};
