//! Helper functions used throughout the crate: numeric utilities, table
//! manipulation, character sets, and axis decoration.

pub mod arrays;
pub mod axes;
pub mod charset;
pub mod math;
pub mod rendering;
