//! The parts of the adapters whose rules can be stated without the terminal,
//! the socket or the file system.

pub mod env;
pub mod fs_project;
pub mod herdr_socket;
pub mod project_walk;
pub mod tui;
