//! Text processing: cleaning raw log lines, extracting Java package names,
//! and splitting log and XML lines into styled segments.

pub mod log_parser;
pub mod styled;
pub mod xml_formatter;

pub use log_parser::clean_log_line;
pub mod width;
pub mod regex_find;
