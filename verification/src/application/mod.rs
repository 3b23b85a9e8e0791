//! Use cases: resolving the catalogue once, and the decisions taken between
//! the socket requests that open, close and launch.

pub mod list_scripts;
pub mod open_sidebar;
pub mod ports;
pub mod run_script;
pub mod toggle_sidebar;
