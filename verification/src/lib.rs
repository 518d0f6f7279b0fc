//! Renders raster images as text for a character terminal.
//!
//! The pipeline is: pixel grid, then brightness grid, then glyph grid, then
//! a sequence of terminal directives.

pub mod palette;
pub mod brightness;
pub mod matrix;
pub mod terminal;
pub mod commandline;
