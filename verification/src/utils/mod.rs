pub mod git;
pub mod loading;
pub mod logger;
pub mod text;
pub mod version;
pub mod watcher;

pub use text::clean_log_line;
