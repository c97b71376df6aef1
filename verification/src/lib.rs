//! Recursive grid navigation over a screen rectangle.
//!
//! A grid divides the screen into cells; selecting a cell makes it the rectangle that the grid
//! divides next. Everything here is computed from plain values: display, files and environment
//! stay with the caller.

pub mod backend;
pub mod config;
pub mod events;
pub mod geometry;
pub mod grid;
pub mod input;
pub mod keys;
pub mod labels;
pub mod overlay;
pub mod session;
pub mod text;
