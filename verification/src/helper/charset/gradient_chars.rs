//! Character gradients of multiple sizes, used for shading a character to a
//! specific brightness.
//!
//! Glyphs are kept as `String`s rather than `char`s so that multi-byte
//! escape sequences can join them later.

use crate::helper::charset::glyph_views;
use crate::helper::charset::single_char_glyphs;
use vstd::prelude::*;
use vstd::string::StrSliceExecFns;
use vstd::string::StringExecFns;

verus! {

/// Splits a gradient string into a vector of its single-character slices,
/// in order.
pub fn str_glyphs(s: &str) -> (r: Vec<&str>)
    ensures
        r@.map_values(|p: &str| p@) == single_char_glyphs(s@),
{
    let n: usize = s.unicode_len();
    let mut r: Vec<&str> = Vec::new();
    let mut i: usize = 0;
    while i < n
        invariant
            n == s@.len(),
            i <= n,
            r@.len() == i,
            forall|j: int| 0 <= j < i ==> #[trigger] r@[j]@ == s@.subrange(j, j + 1),
        decreases n - i,
    {
        let piece: &str = s.substring_char(i, i + 1);
        r.push(piece);
        i = i + 1;
    }
    proof {
        assert(r@.map_values(|p: &str| p@) =~= single_char_glyphs(s@));
    }
    r
}

/// Splits a gradient string into a vector of its single-character glyphs,
/// in order.
fn glyphs_of(s: &str) -> (r: Vec<String>)
    ensures
        glyph_views(r@) == single_char_glyphs(s@),
{
    let n: usize = s.unicode_len();
    let mut r: Vec<String> = Vec::new();
    let mut i: usize = 0;
    while i < n
        invariant
            n == s@.len(),
            i <= n,
            r@.len() == i,
            forall|j: int| 0 <= j < i ==> #[trigger] r@[j]@ == s@.subrange(j, j + 1),
        decreases n - i,
    {
        let piece: &str = s.substring_char(i, i + 1);
        r.push(String::from_str(piece));
        i = i + 1;
    }
    proof {
        assert(glyph_views(r@) =~= single_char_glyphs(s@));
    }
    r
}

/// A two-step gradient: space and full block.
pub fn binary_chars() -> (r: Vec<String>)
    ensures
        glyph_views(r@) == single_char_glyphs(" █"@),
{
    glyphs_of(" █")
}

/// A five-step gradient of unicode shade characters.
pub fn shade_chars() -> (r: Vec<String>)
    ensures
        glyph_views(r@) == single_char_glyphs(" ░▒▓█"@),
{
    glyphs_of(" ░▒▓█")
}

/// A ten-step gradient of ascii characters.
pub fn ascii_chars() -> (r: Vec<String>)
    ensures
        glyph_views(r@) == single_char_glyphs(" .:-=+*#%@"@),
{
    glyphs_of(" .:-=+*#%@")
}

/// A seventy-step gradient of ascii characters.
pub fn ascii_chars_large() -> (r: Vec<String>)
    ensures
        glyph_views(r@) == single_char_glyphs(
            " .'`^\",:;Il!i><~+_-?][}{1)(|\\/tfjrxnuvczXYUJCLQ0OZmwqpdbkhao*#MW&8%B@$"@,
        ),
{
    glyphs_of(" .'`^\",:;Il!i><~+_-?][}{1)(|\\/tfjrxnuvczXYUJCLQ0OZmwqpdbkhao*#MW&8%B@$")
}

} // verus!
