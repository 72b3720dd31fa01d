//! Viewport, cursor, sort and search logic for an interactive terminal table viewer.
pub mod laws;
pub mod load;
pub mod renderer;
pub mod sort;
pub mod state;
pub mod text;
pub mod viewer;
