//! Terminal plotting utilities: glyph-grid rendering of numeric tables,
//! point sets and boolean grids, with verified contracts on the data-shaping
//! and rendering logic.

pub mod array_plot;
pub mod helper;
pub mod plots;
