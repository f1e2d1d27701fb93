//! Characters used for displaying vector directions.

use vstd::prelude::*;

verus! {

pub const ARROWS: &'static str = "→↘↓↙←↖↑↗";

} // verus!
