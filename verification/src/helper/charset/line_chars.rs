//! Characters used for displaying continuous single lines.

use vstd::prelude::*;

verus! {

pub const FLAT_LOW: char = '_';

pub const FLAT_MED: char = '―';

pub const FLAT_HIGH: char = '‾';

pub const UP_ONE: char = '╱';

pub const UP_TWO: char = '/';

pub const DOWN_ONE: char = '╲';

pub const DOWN_TWO: char = '\\';

pub const VERTICAL: char = '|';

} // verus!
