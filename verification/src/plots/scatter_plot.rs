//! Scatter-plot rendering: the core step turns a boolean grid into a glyph
//! grid, packing each cell's booleans into one character of a subdivision
//! character set.

use crate::helper::axes::joined_lines;
use crate::helper::axes::lemma_joined_lines_push;
use crate::helper::math::bin_to_u8;
use crate::helper::math::bits_value;
use crate::helper::math::ciel_div;
use crate::helper::math::pow2;
use vstd::prelude::*;
use vstd::string::StringExecFns;

verus! {

/// The bit of a boolean grid at row `y`, column `x`; positions outside the
/// grid read as `false`.
pub open spec fn grid_bit(arr: Seq<Vec<bool>>, y: int, x: int) -> bool {
    if 0 <= y < arr.len() && 0 <= x < arr[y]@.len() {
        arr[y]@[x]
    } else {
        false
    }
}

/// The bits packed into the glyph whose top-left grid corner is
/// `(x0, y0)`, for a glyph of `w` columns and `h` rows: column by column,
/// top to bottom within each column.
pub open spec fn glyph_bits(arr: Seq<Vec<bool>>, x0: int, y0: int, w: int, h: int) -> Seq<bool> {
    Seq::new((w * h) as nat, |k: int| grid_bit(arr, y0 + k % h, x0 + k / h))
}

/// The glyph chosen for cell `(i, j)` of the output grid.
pub open spec fn glyph_at(
    arr: Seq<Vec<bool>>,
    chrs: Seq<char>,
    w: int,
    h: int,
    i: int,
    j: int,
) -> char {
    chrs[bits_value(glyph_bits(arr, i * w, j * h, w, h)) as int]
}

/// The whole glyph grid for a boolean grid of `range.0` columns and
/// `range.1` rows, rendered with glyphs of `w` x `h` bits.
pub open spec fn bool_grid_glyphs(
    arr: Seq<Vec<bool>>,
    range: (u32, u32),
    chrs: Seq<char>,
    w: int,
    h: int,
) -> Seq<Seq<char>> {
    Seq::new(
        (((range.1 + h - 1) as int) / h) as nat,
        |j: int|
            Seq::new(
                (((range.0 + w - 1) as int) / w) as nat,
                |i: int| glyph_at(arr, chrs, w, h, i, j),
            ),
    )
}

/// Relies on `String::push`: appends one character at the end.
#[verifier::external_body]
fn push_char(s: &mut String, c: char)
    ensures
        final (s)@ == old(s)@.push(c),
{
    s.push(c);
}

/// Renders a boolean grid as newline-separated lines of glyphs.
///
/// Each glyph stands for a `w` x `h` block of booleans (`charset.1`, with
/// the grid padded by `false` at the right and bottom edges); the block is
/// read column by column, top to bottom, as a little-endian binary index
/// into the character set `charset.0`, which must hold exactly one glyph
/// per possible block.
pub fn bool_arr_plot_string_custom_charset(
    arr: &Vec<Vec<bool>>,
    range: (u32, u32),
    charset: (Vec<char>, (u32, u32)),
) -> (r: String)
    requires
        charset.1.0 >= 1,
        charset.1.1 >= 1,
        charset.1.0 * charset.1.1 <= 8,
        charset.0@.len() == pow2((charset.1.0 * charset.1.1) as nat),
        arr@.len() == range.1,
        forall|y: int| 0 <= y < arr@.len() ==> #[trigger] arr@[y]@.len() == range.0,
        range.0 + charset.1.0 <= u32::MAX,
        range.1 + charset.1.1 <= u32::MAX,
    ensures
        r@ == joined_lines(
            bool_grid_glyphs(arr@, range, charset.0@, charset.1.0 as int, charset.1.1 as int),
        ),
{
    let (chrs, chrsize) = charset;
    let w: u32 = chrsize.0;
    let h: u32 = chrsize.1;
    let x_size: u32 = ciel_div(range.0, w);
    let y_size: u32 = ciel_div(range.1, h);
    proof {
        if range.0 == 0 {
            vstd::arithmetic::div_mod::lemma_basic_div((w - 1) as int, w as int);
        }
        if range.1 == 0 {
            vstd::arithmetic::div_mod::lemma_basic_div((h - 1) as int, h as int);
        }
    }
    let ghost grid = bool_grid_glyphs(arr@, range, chrs@, w as int, h as int);
    proof {
        assert(grid.len() == y_size);
    }

    let mut out = String::new();
    let mut j: u32 = 0;
    while j < y_size
        invariant
            w >= 1,
            h >= 1,
            w * h <= 8,
            chrs@.len() == pow2((w * h) as nat),
            arr@.len() == range.1,
            forall|y: int| 0 <= y < arr@.len() ==> #[trigger] arr@[y]@.len() == range.0,
            range.0 + w <= u32::MAX,
            range.1 + h <= u32::MAX,
            x_size == ((range.0 + w - 1) as int) / (w as int),
            y_size == ((range.1 + h - 1) as int) / (h as int),
            x_size * w >= range.0,
            range.0 == 0 ==> x_size == 0,
            range.1 == 0 ==> y_size == 0,
            y_size * h >= range.1,
            range.0 > 0 ==> (x_size - 1) * w < range.0,
            range.1 > 0 ==> (y_size - 1) * h < range.1,
            grid == bool_grid_glyphs(arr@, range, chrs@, w as int, h as int),
            j <= y_size,
            out@ == joined_lines(grid.take(j as int)),
        decreases y_size - j,
    {
        let ghost out_before = out@;
        if j > 0 {
            out.append("\n");
        }
        proof {
            reveal_strlit("\n");
            assert("\n"@ =~= seq!['\n']);
        }
        let mut i: u32 = 0;
        while i < x_size
            invariant
                w >= 1,
                h >= 1,
                w * h <= 8,
                chrs@.len() == pow2((w * h) as nat),
                arr@.len() == range.1,
                forall|y: int| 0 <= y < arr@.len() ==> #[trigger] arr@[y]@.len() == range.0,
                range.0 + w <= u32::MAX,
                range.1 + h <= u32::MAX,
                x_size * w >= range.0,
                range.0 == 0 ==> x_size == 0,
                range.1 == 0 ==> y_size == 0,
                y_size * h >= range.1,
                range.0 > 0 ==> (x_size - 1) * w < range.0,
                range.1 > 0 ==> (y_size - 1) * h < range.1,
                grid == bool_grid_glyphs(arr@, range, chrs@, w as int, h as int),
                j < y_size,
                y_size == grid.len(),
                x_size == grid[j as int].len(),
                i <= x_size,
                out@ == out_before + (if j > 0 {
                    seq!['\n']
                } else {
                    Seq::<char>::empty()
                }) + grid[j as int].take(i as int),
            decreases x_size - i,
        {
            let mut bits: Vec<bool> = Vec::new();
            let mut c: u32 = 0;
            while c < w
                invariant
                    w >= 1,
                    h >= 1,
                    w * h <= 8,
                    arr@.len() == range.1,
                    forall|y: int| 0 <= y < arr@.len() ==> #[trigger] arr@[y]@.len() == range.0,
                    range.0 + w <= u32::MAX,
                    range.1 + h <= u32::MAX,
                    x_size * w >= range.0,
                range.0 == 0 ==> x_size == 0,
                range.1 == 0 ==> y_size == 0,
                    y_size * h >= range.1,
                    range.0 > 0 ==> (x_size - 1) * w < range.0,
                    range.1 > 0 ==> (y_size - 1) * h < range.1,
                    i < x_size,
                    j < y_size,
                    c <= w,
                    bits@.len() == c * h,
                    forall|k: int|
                        0 <= k < bits@.len() ==> #[trigger] bits@[k] == grid_bit(
                            arr@,
                            j * h + k % (h as int),
                            i * w + k / (h as int),
                        ),
                decreases w - c,
            {
                let mut rr: u32 = 0;
                while rr < h
                    invariant
                        w >= 1,
                        h >= 1,
                        w * h <= 8,
                        arr@.len() == range.1,
                        forall|y: int| 0 <= y < arr@.len() ==> #[trigger] arr@[y]@.len() == range.0,
                        range.0 + w <= u32::MAX,
                        range.1 + h <= u32::MAX,
                        x_size * w >= range.0,
                range.0 == 0 ==> x_size == 0,
                range.1 == 0 ==> y_size == 0,
                        y_size * h >= range.1,
                        range.0 > 0 ==> (x_size - 1) * w < range.0,
                        range.1 > 0 ==> (y_size - 1) * h < range.1,
                        i < x_size,
                        j < y_size,
                        c < w,
                        rr <= h,
                        bits@.len() == c * h + rr,
                        forall|k: int|
                            0 <= k < bits@.len() ==> #[trigger] bits@[k] == grid_bit(
                                arr@,
                                j * h + k % (h as int),
                                i * w + k / (h as int),
                            ),
                    decreases h - rr,
                {
                    proof {
                        assert((c * h + rr) + 1 <= w * h) by (nonlinear_arith)
                            requires
                                0 <= c < w,
                                0 <= rr < h,
                        ;
                        assert(j * h + h <= y_size * h) by (nonlinear_arith)
                            requires
                                0 <= j < y_size,
                                h >= 1,
                        ;
                        assert(i * w + w <= x_size * w) by (nonlinear_arith)
                            requires
                                0 <= i < x_size,
                                w >= 1,
                        ;
                        assert(y_size * h < range.1 + h) by (nonlinear_arith)
                            requires
                                range.1 > 0 ==> (y_size - 1) * h < range.1,
                                range.1 == 0 ==> y_size == 0,
                                h >= 1,
                                y_size >= 0,
                        ;
                        assert(x_size * w < range.0 + w) by (nonlinear_arith)
                            requires
                                range.0 > 0 ==> (x_size - 1) * w < range.0,
                                range.0 == 0 ==> x_size == 0,
                                w >= 1,
                                x_size >= 0,
                        ;
                    }
                    let y: u32 = j * h + rr;
                    let x: u32 = i * w + c;
                    let bit: bool = if (y as usize) < arr.len() {
                        let row: &Vec<bool> = &arr[y as usize];
                        if (x as usize) < row.len() {
                            row[x as usize]
                        } else {
                            false
                        }
                    } else {
                        false
                    };
                    bits.push(bit);
                    proof {
                        let k = c as int * h as int + rr as int;
                        vstd::arithmetic::div_mod::lemma_fundamental_div_mod_converse(
                            k,
                            h as int,
                            c as int,
                            rr as int,
                        );
                        let hh = h as int;
                        assert(bits@[k] == grid_bit(arr@, j * h + k % hh, i * w + k / hh));
                    }
                    rr = rr + 1;
                }
                proof {
                    assert((c + 1) as int * h == c as int * h + h) by (nonlinear_arith);
                }
                c = c + 1;
            }
            proof {
                assert(bits@ =~= glyph_bits(arr@, i as int * w as int, j as int * h as int, w as int, h as int));
            }
            let idx: u8 = bin_to_u8(bits);
            let glyph: char = chrs[idx as usize];
            push_char(&mut out, glyph);
            proof {
                assert(glyph == glyph_at(arr@, chrs@, w as int, h as int, i as int, j as int));
                assert(grid[j as int].take(i + 1) =~= grid[j as int].take(i as int).push(glyph));
                assert(out@ =~= out_before + (if j > 0 {
                    seq!['\n']
                } else {
                    Seq::<char>::empty()
                }) + grid[j as int].take(i + 1));
            }
            i = i + 1;
        }
        proof {
            assert(grid[j as int].take(x_size as int) =~= grid[j as int]);
            lemma_joined_lines_push(grid.take(j as int), grid[j as int]);
            assert(grid.take(j as int).push(grid[j as int]) =~= grid.take(j + 1));
            assert(out@ =~= joined_lines(grid.take(j + 1)));
        }
        j = j + 1;
    }
    proof {
        assert(grid.take(y_size as int) =~= grid);
    }
    out
}

} // verus!
