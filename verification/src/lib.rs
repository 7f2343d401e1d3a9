//! The state and the rules of an interactive digraph heatmap viewer: which bytes of a file are
//! selected, how a file load fills the buffer, how the byte rail is painted, and how dragging on
//! the rail moves the selection.

pub mod app;
pub mod color;
pub mod coord;
pub mod loader;
pub mod minimap;
pub mod strip;
