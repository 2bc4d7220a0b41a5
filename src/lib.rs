//! Parsing of Scripture citations for memorization and reading statistics.
pub mod book_name_parser;
pub mod canon;
pub mod error;
pub mod laws;
pub mod text;
pub mod verse_parser;
pub mod models;
pub mod display;
pub mod progress;
pub mod report;

pub use report::get_bible_stats;
