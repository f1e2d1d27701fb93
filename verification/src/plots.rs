//! The plot types: each submodule renders one kind of data as a glyph grid
//! or drives one output format.

pub mod animation_plot;
pub mod array_plot;
pub mod scatter_plot;
