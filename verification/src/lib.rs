//! A character-grid layer for text-mode user interfaces.
//!
//! The crate offers a grid of styled characters with drawing and composition
//! primitives, a manager of overlapping windows that can be moved, resized,
//! focused and closed with the mouse, and a form engine that arranges input
//! fields into one navigable unit. Every function carries a contract that is
//! proved against a mathematical model of the data it works on.

pub mod bresenham;
pub mod canvas;
pub mod events;
pub mod forms;
pub mod grid;
pub mod pixel;
pub mod rect_style;
pub mod saturate;
pub mod shapes;
pub mod window_laws;
pub mod window_manager;
