//! Array plots: tables of values displayed with varying brightness across
//! their characters.

use crate::helper::charset::glyph_views;
use crate::helper::charset::gradient_chars::ascii_chars;
use crate::helper::charset::gradient_chars::binary_chars;
use crate::helper::charset::gradient_chars::shade_chars;
use crate::helper::charset::single_char_glyphs;
use vstd::prelude::*;

verus! {

/// The gradient character set that `choose_charachter_set` picks for a
/// given number of distinct values.
pub open spec fn default_gradient(num_distinct: int) -> Seq<Seq<char>> {
    if num_distinct <= 2 {
        single_char_glyphs(" █"@)
    } else if num_distinct <= 5 {
        single_char_glyphs(" ░▒▓█"@)
    } else {
        single_char_glyphs(" .:-=+*#%@"@)
    }
}

/// Determines which shading character set to use based on the number of
/// distinct values to display. Acts as a default argument for array plots.
pub fn choose_charachter_set(num_distinct: u32) -> (r: Vec<String>)
    ensures
        glyph_views(r@) == default_gradient(num_distinct as int),
{
    let binary = binary_chars();
    let shade = shade_chars();
    let ascii = ascii_chars();
    proof {
        reveal_strlit(" █");
        reveal_strlit(" ░▒▓█");
        reveal_strlit(" .:-=+*#%@");
        assert(binary@.len() == glyph_views(binary@).len());
        assert(shade@.len() == glyph_views(shade@).len());
        assert(ascii@.len() == glyph_views(ascii@).len());
        assert(binary@.len() == 2);
        assert(shade@.len() == 5);
        assert(ascii@.len() == 10);
    }
    if num_distinct <= binary.len() as u32 {
        binary
    } else if num_distinct <= shade.len() as u32 {
        shade
    } else {
        ascii
    }
}

} // verus!
