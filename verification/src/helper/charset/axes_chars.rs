//! Characters used for displaying axes on a plot.

use vstd::prelude::*;

verus! {

pub const VERTICAL: char = '│';

pub const HORIZONTAL: char = '─';

pub const CROSS: char = '┼';

pub const CORNER: char = '└';

} // verus!
