//! Sets of characters used for plotting graphs.

pub mod axes_chars;
pub mod gradient_chars;
pub mod line_chars;
pub mod subdiv_chars;
pub mod vec_chars;

use vstd::prelude::*;

verus! {

pub const NULL_STR: &'static str = "\u{fffd}";

pub const NULL_CHR: char = '\u{fffd}';

/// The views of a list of glyphs, one character sequence per glyph.
pub open spec fn glyph_views(r: Seq<String>) -> Seq<Seq<char>> {
    r.map_values(|s: String| s@)
}

/// Splits a character sequence into one single-character glyph per entry.
pub open spec fn single_char_glyphs(s: Seq<char>) -> Seq<Seq<char>> {
    Seq::new(s.len(), |i: int| s.subrange(i, i + 1))
}

} // verus!
