//! The panes of the main screen.

pub mod basic_panes;
pub mod help;
pub mod layout;
pub mod popups;
pub mod tab_footer;

pub use layout::create_adaptive_layout;
