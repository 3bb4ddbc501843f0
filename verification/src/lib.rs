//! A verified text-grid writer for a fixed-geometry character-cell display.
//!
//! The crate models an 80 x 25 grid of cells, each holding a character byte
//! and an attribute byte, and a stateful writer that places text fragments
//! into the grid with selectable horizontal alignment, terminal-style
//! scrolling, and an in-place overwrite mode for right-aligned numbers.
//!
//! `vga_buf` holds the executable writer, `model` its mathematical model,
//! and `laws` the proved statements about the writer's behaviour.

pub mod laws;
pub mod model;
pub mod vga_buf;
