pub mod auto_reload;
pub mod types;
pub mod navigation;

pub use types::{BuildFlag, MavenProfile, ModuleOutput, ProfileLoadingStatus, ProfileState};
pub mod output;
pub mod launcher_config;
pub mod preferences_io;
pub mod project_tab;
pub mod search;

pub use project_tab::{CommandExecutionState, LastCommandStatus};
pub mod filters;
pub mod tabs;
pub mod commands;
pub mod profiles;
pub mod history;
pub mod starters;
pub mod debug_report;
pub mod selection;
