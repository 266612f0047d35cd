//! A small line-search library: split a text into lines and return, in
//! document order, the lines that contain a query, either verbatim or
//! ignoring letter case.

mod config;
mod laws;
mod search;
mod text;

pub use config::Config;
pub use search::matching_lines;
pub use search::search;
pub use search::search_case_insensitive;
pub use text::contains_substring;
pub use text::split_lines;
