//! Sidebar rules: glyphs, geometry of the column and the list state.

pub mod theme;
pub mod app;
pub mod view;
pub mod screen;
