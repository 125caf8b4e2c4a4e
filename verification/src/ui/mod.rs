pub mod panes;
pub mod search;
pub mod state;
pub mod theme;
